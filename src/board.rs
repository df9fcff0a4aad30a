use vstd::prelude::*;

use vstd::std_specs::cmp::PartialEqSpec;

use crate::meta::{BoardMeta, MetaView, texts_view};
use crate::picture::{BoardImage, ImageView, opt_image_view};

verus! {

/// One catalog entry: what its metadata file declares, plus the examples and the picture
/// found beside that file.
#[derive(Debug, Clone)]
pub struct Board {
    pub meta: BoardMeta,
    /// Names of the entries of the sibling `examples` directory, in listing order.
    pub examples: Vec<String>,
    pub pic: Option<BoardImage>,
}

/// The mathematical value of a `Board`.
pub struct BoardView {
    pub meta: MetaView,
    pub examples: Seq<Seq<char>>,
    pub pic: Option<ImageView>,
}

impl View for Board {
    type V = BoardView;

    open spec fn view(&self) -> BoardView {
        BoardView { meta: self.meta@, examples: texts_view(self.examples@), pic: opt_image_view(self.pic) }
    }
}

/// Boards are the same board when their names are equal, whatever else they hold.
impl PartialEq for Board {
    fn eq(&self, other: &Board) -> (r: bool)
        ensures
            r == (self.meta.name@ == other.meta.name@),
    {
        crate::names::same_text(self.meta.name.as_str(), other.meta.name.as_str())
    }
}

impl vstd::std_specs::cmp::PartialEqSpecImpl for Board {
    open spec fn obeys_eq_spec() -> bool {
        true
    }

    open spec fn eq_spec(&self, other: &Board) -> bool {
        self.meta.name@ == other.meta.name@
    }
}

impl Board {
    /// Joins a declared part with what was found beside its metadata file.
    pub fn new(meta: BoardMeta, examples: Vec<String>, pic: Option<BoardImage>) -> (r: Board)
        ensures
            r@ == (BoardView { meta: meta@, examples: texts_view(examples@), pic: opt_image_view(pic) }),
    {
        Board { meta, examples, pic }
    }

    pub fn get_name(&self) -> (r: &str)
        ensures
            r@ == self.meta.name@,
    {
        self.meta.name.as_str()
    }
}

/// Two boards with the same name are equal, whatever their other fields hold; two with
/// different names are not.
pub proof fn lemma_equal_iff_same_name(a: Board, b: Board)
    ensures
        a.eq_spec(&b) <==> a@.meta.name == b@.meta.name,
{
}

} // verus!
