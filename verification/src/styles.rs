//! The style context of a layout call, as far as layout reads it.

use vstd::prelude::*;
use crate::hash::{fx_fold, hash_words};
use crate::node::NodeId;
use crate::seqs::lemma_filter_take;

verus! {

/// One style setting.
#[derive(Clone, Copy, Debug, PartialEq, Eq)]
pub struct Style {
    /// The kind of node that the setting belongs to; `None` where it bears
    /// on every kind.
    pub node: Option<NodeId>,
    /// The hash of the setting's key and value.
    pub value: u64,
}

/// A chain of style settings, outermost first.
#[derive(Debug)]
pub struct StyleChain {
    pub entries: Vec<Style>,
}

/// Whether a style bears on nodes of kind `id`.
pub open spec fn relevant(style: Style, id: NodeId) -> bool {
    style.node is None || style.node == Some(id)
}

/// The styles of a chain that bear on nodes of kind `id`, in order.
pub open spec fn barred_spec(styles: Seq<Style>, id: NodeId) -> Seq<Style> {
    styles.filter(|s: Style| relevant(s, id))
}

/// The word that stands for the kind a style belongs to.
pub open spec fn scope_word(node: Option<NodeId>) -> u64 {
    match node {
        None => 0,
        Some(id) => id.tag() as u64,
    }
}

/// The words that a chain is hashed from: two per style.
pub open spec fn style_words(styles: Seq<Style>) -> Seq<u64>
    decreases styles.len(),
{
    if styles.len() == 0 {
        Seq::empty()
    } else {
        style_words(styles.drop_last()).push(scope_word(styles.last().node)).push(
            styles.last().value,
        )
    }
}

/// The hash of a chain.
pub open spec fn styles_hash(styles: Seq<Style>) -> u64 {
    fx_fold(style_words(styles))
}

impl View for StyleChain {
    type V = Seq<Style>;

    open spec fn view(&self) -> Seq<Style> {
        self.entries@
    }
}

impl Style {
    /// Whether the style bears on nodes of kind `id`.
    pub fn bears_on(&self, id: NodeId) -> (res: bool)
        ensures
            res == relevant(*self, id),
    {
        match self.node {
            None => true,
            Some(own) => own == id,
        }
    }
}

impl StyleChain {
    /// The empty chain.
    pub fn new() -> (res: StyleChain)
        ensures
            res@ == Seq::<Style>::empty(),
    {
        StyleChain { entries: Vec::new() }
    }

    /// The chain narrowed to the styles that bear on nodes of kind `id`.
    pub fn barred(&self, id: NodeId) -> (res: StyleChain)
        ensures
            res@ == barred_spec(self@, id),
    {
        let ghost keep = |s: Style| relevant(s, id);
        let mut entries: Vec<Style> = Vec::new();
        let mut i: usize = 0;
        proof {
            assert(self.entries@.take(0) =~= Seq::<Style>::empty());
            reveal(Seq::filter);
        }
        while i < self.entries.len()
            invariant
                i <= self.entries.len(),
                keep == (|s: Style| relevant(s, id)),
                entries@ == self.entries@.take(i as int).filter(keep),
            decreases self.entries.len() - i,
        {
            let style = self.entries[i];
            proof {
                lemma_filter_take(self.entries@, keep, i as int);
            }
            if style.bears_on(id) {
                entries.push(style);
            }
            i += 1;
        }
        proof {
            assert(self.entries@.take(i as int) =~= self.entries@);
        }
        StyleChain { entries }
    }

    /// The hash of the chain.
    pub fn hash(&self) -> (res: u64)
        ensures
            res == styles_hash(self@),
    {
        let mut words: Vec<u64> = Vec::new();
        let mut i: usize = 0;
        proof {
            assert(self.entries@.take(0) =~= Seq::<Style>::empty());
        }
        while i < self.entries.len()
            invariant
                i <= self.entries.len(),
                words@ == style_words(self.entries@.take(i as int)),
            decreases self.entries.len() - i,
        {
            let style = self.entries[i];
            proof {
                assert(self.entries@.take(i + 1).drop_last() =~= self.entries@.take(i as int));
            }
            let scope: u64 = match style.node {
                None => 0,
                Some(id) => id.code(),
            };
            words.push(scope);
            words.push(style.value);
            i += 1;
        }
        proof {
            assert(self.entries@.take(i as int) =~= self.entries@);
        }
        hash_words(&words)
    }
}

} // verus!
