//! The help overlay's layout state.
//!
//! Drawing itself is a presentational concern left to the surrounding
//! layer; what is kept here is the state a layout is built over and the
//! one piece of content it computes: the footer label, which is the
//! keyword being searched or, failing that, `<layer>.help`.

use vstd::prelude::*;

use crate::url::{clone_bytes, opt_bytes_view};

verus! {

/// The help state a layout draws from: the active layer's name and the
/// keyword being searched, if any.
pub struct Help {
    pub layer: Vec<u8>,
    pub keyword: Option<Vec<u8>>,
}

/// The context a layout is built over.
pub struct Ctx {
    pub help: Help,
}

/// The `.help` suffix appended to a layer name.
pub open spec fn help_suffix() -> Seq<u8> {
    seq![46u8, 104u8, 101u8, 108u8, 112u8]
}

/// The footer label: the keyword when one is set, else `<layer>.help`.
pub open spec fn footer_label_of(layer: Seq<u8>, keyword: Option<Seq<u8>>) -> Seq<u8> {
    match keyword {
        Some(k) => k,
        None => layer + help_suffix(),
    }
}

impl Help {
    /// The keyword being searched, if any.
    pub fn keyword(&self) -> (r: Option<Vec<u8>>)
        ensures
            opt_bytes_view(r) == opt_bytes_view(self.keyword),
    {
        match &self.keyword {
            Some(k) => Some(clone_bytes(k)),
            None => None,
        }
    }

    /// The footer label this help state yields.
    pub fn footer_label(&self) -> (r: Vec<u8>)
        ensures
            r@ == footer_label_of(self.layer@, opt_bytes_view(self.keyword)),
    {
        match &self.keyword {
            Some(k) => clone_bytes(k),
            None => {
                let mut v = clone_bytes(&self.layer);
                v.push(46);
                v.push(104);
                v.push(101);
                v.push(108);
                v.push(112);
                proof {
                    assert(v@ =~= self.layer@ + help_suffix());
                }
                v
            },
        }
    }
}

/// The help overlay's layout, over the context it renders.
pub struct Layout<'a> {
    pub cx: &'a Ctx,
}

impl<'a> Layout<'a> {
    /// A layout over the given context.
    pub fn new(cx: &'a Ctx) -> (r: Self)
        ensures
            r.cx == cx,
    {
        Layout { cx }
    }

    /// The label of the layout's footer line.
    pub fn footer_label(&self) -> (r: Vec<u8>)
        ensures
            r@ == footer_label_of(self.cx.help.layer@, opt_bytes_view(self.cx.help.keyword)),
    {
        self.cx.help.footer_label()
    }
}

} // verus!
