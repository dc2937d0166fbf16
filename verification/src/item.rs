use vstd::prelude::*;

verus! {

/// An RGB colour, as the SVG parser reports one.
#[derive(Clone, Copy, PartialEq, Eq, Debug)]
pub struct Rgb {
    pub red: u8,
    pub green: u8,
    pub blue: u8,
}

/// The width a stroke is tessellated with. `One` is the width of an item that
/// no style has given one (one unit); the other variants carry the bits of the
/// number (`f64::to_bits`) that the style value held.
#[derive(Clone, Copy, PartialEq, Eq, Debug)]
pub enum StrokeWidth {
    One,
    Number(u64),
    Length(u64),
}

/// What a render item is, for the contracts: the SVG path data of its path
/// (`None` for an empty path), its paints, its stroke width, and whether its
/// geometry has been tessellated and uploaded.
pub struct ItemModel {
    pub path: Option<Seq<char>>,
    pub fill: Option<Rgb>,
    pub stroke: Option<Rgb>,
    pub stroke_width: StrokeWidth,
    pub tessellated: bool,
    pub uploaded: bool,
}

/// The model of an item that nothing has been applied to yet.
pub open spec fn fresh_item() -> ItemModel {
    ItemModel {
        path: None,
        fill: None,
        stroke: None,
        stroke_width: StrokeWidth::One,
        tessellated: false,
        uploaded: false,
    }
}

/// One paint item of the scene: a path, given by its SVG path data (`None`
/// for an empty path), with an optional fill and an optional stroke.
/// `tessellated` stands for the geometry having been built, `uploaded` for its
/// buffers being on the GPU; the renderer builds the path and holds the
/// geometry and buffers beside the scene.
pub struct RenderItem {
    pub path: Option<String>,
    pub fill: Option<Rgb>,
    pub stroke: Option<Rgb>,
    pub stroke_width: StrokeWidth,
    pub tessellated: bool,
    pub uploaded: bool,
}

impl View for RenderItem {
    type V = ItemModel;

    open spec fn view(&self) -> ItemModel {
        ItemModel {
            path: match self.path {
                Some(data) => Some(data@),
                None => None,
            },
            fill: self.fill,
            stroke: self.stroke,
            stroke_width: self.stroke_width,
            tessellated: self.tessellated,
            uploaded: self.uploaded,
        }
    }
}

impl RenderItem {
    /// An item with an empty path, no paint, a stroke width of one, and no
    /// geometry.
    pub fn new() -> (item: RenderItem)
        ensures
            item@ == fresh_item(),
    {
        RenderItem {
            path: None,
            fill: None,
            stroke: None,
            stroke_width: StrokeWidth::One,
            tessellated: false,
            uploaded: false,
        }
    }
}

} // verus!
