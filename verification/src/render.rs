use vstd::prelude::*;
use crate::item::{ItemModel, RenderItem, Rgb, StrokeWidth};
use crate::scene::scene_view;

verus! {

/// The work of tessellating one item: the fill pass when the item has a fill
/// colour, and the stroke pass, with the item's stroke width, when it has a
/// stroke colour. Both passes write into the same geometry.
#[derive(Clone, Copy, PartialEq, Eq, Debug)]
pub struct TessellationJob {
    pub index: usize,
    pub fill: Option<Rgb>,
    pub stroke: Option<Rgb>,
    pub stroke_width: StrokeWidth,
}

/// The job for the item at `index`.
pub open spec fn job_for(index: int, item: ItemModel) -> TessellationJob {
    TessellationJob {
        index: index as usize,
        fill: item.fill,
        stroke: item.stroke,
        stroke_width: item.stroke_width,
    }
}

/// The jobs for the items that have no geometry yet, in scene order.
pub open spec fn tessellation_jobs(scene: Seq<ItemModel>) -> Seq<TessellationJob>
    decreases scene.len(),
{
    if scene.len() == 0 {
        Seq::empty()
    } else {
        let rest = tessellation_jobs(scene.drop_last());
        if scene.last().tessellated {
            rest
        } else {
            rest.push(job_for(scene.len() - 1, scene.last()))
        }
    }
}

/// An item after tessellation: an item without geometry gets geometry that is
/// not uploaded; an item with geometry is left as it is.
pub open spec fn tessellated_item(item: ItemModel) -> ItemModel {
    if item.tessellated {
        item
    } else {
        ItemModel { tessellated: true, uploaded: false, ..item }
    }
}

/// The scene after tessellation.
pub open spec fn tessellated_scene(scene: Seq<ItemModel>) -> Seq<ItemModel> {
    scene.map_values(|item: ItemModel| tessellated_item(item))
}

/// Gives geometry to every item of the scene that has none, and returns the
/// tessellation work to do for them, in scene order. Items that already have
/// geometry are left untouched; a newly tessellated item is not uploaded.
pub fn tessellate_scene(scene: &mut Vec<RenderItem>) -> (jobs: Vec<TessellationJob>)
    ensures
        scene_view(final(scene)@) == tessellated_scene(scene_view(old(scene)@)),
        jobs@ == tessellation_jobs(scene_view(old(scene)@)),
{
    let ghost start = scene_view(scene@);
    assert forall|j: int| 0 <= j < scene@.len() implies (#[trigger] scene@[j])@ == start[j] by {}
    let mut jobs: Vec<TessellationJob> = Vec::new();
    let mut i: usize = 0;
    while i < scene.len()
        invariant
            start == scene_view(old(scene)@),
            scene@.len() == start.len(),
            0 <= i <= scene@.len(),
            forall|j: int| 0 <= j < i ==> (#[trigger] scene@[j])@ == tessellated_item(start[j]),
            forall|j: int| i <= j < scene@.len() ==> (#[trigger] scene@[j])@ == start[j],
            jobs@ == tessellation_jobs(start.take(i as int)),
        decreases scene@.len() - i,
    {
        assert(start.take(i + 1).drop_last() == start.take(i as int));
        if !scene[i].tessellated {
            jobs.push(TessellationJob {
                index: i,
                fill: scene[i].fill,
                stroke: scene[i].stroke,
                stroke_width: scene[i].stroke_width,
            });
            scene[i].tessellated = true;
            scene[i].uploaded = false;
        }
        i = i + 1;
    }
    assert(start.take(scene@.len() as int) == start);
    assert(scene_view(scene@) =~= tessellated_scene(start));
    jobs
}

/// The indices of the items whose geometry is ready and not uploaded yet, in
/// scene order.
pub open spec fn upload_indices(scene: Seq<ItemModel>) -> Seq<usize>
    decreases scene.len(),
{
    if scene.len() == 0 {
        Seq::empty()
    } else {
        let rest = upload_indices(scene.drop_last());
        if scene.last().tessellated && !scene.last().uploaded {
            rest.push((scene.len() - 1) as usize)
        } else {
            rest
        }
    }
}

/// An item after upload: geometry that is ready and not uploaded becomes
/// uploaded.
pub open spec fn uploaded_item(item: ItemModel) -> ItemModel {
    if item.tessellated && !item.uploaded {
        ItemModel { uploaded: true, ..item }
    } else {
        item
    }
}

/// The scene after upload.
pub open spec fn uploaded_scene(scene: Seq<ItemModel>) -> Seq<ItemModel> {
    scene.map_values(|item: ItemModel| uploaded_item(item))
}

/// Marks as uploaded every item whose geometry is ready and not uploaded, and
/// returns their indices, in scene order: the buffers to create.
pub fn upload_geometry(scene: &mut Vec<RenderItem>) -> (indices: Vec<usize>)
    ensures
        scene_view(final(scene)@) == uploaded_scene(scene_view(old(scene)@)),
        indices@ == upload_indices(scene_view(old(scene)@)),
{
    let ghost start = scene_view(scene@);
    assert forall|j: int| 0 <= j < scene@.len() implies (#[trigger] scene@[j])@ == start[j] by {}
    let mut indices: Vec<usize> = Vec::new();
    let mut i: usize = 0;
    while i < scene.len()
        invariant
            start == scene_view(old(scene)@),
            scene@.len() == start.len(),
            0 <= i <= scene@.len(),
            forall|j: int| 0 <= j < i ==> (#[trigger] scene@[j])@ == uploaded_item(start[j]),
            forall|j: int| i <= j < scene@.len() ==> (#[trigger] scene@[j])@ == start[j],
            indices@ == upload_indices(start.take(i as int)),
        decreases scene@.len() - i,
    {
        assert(start.take(i + 1).drop_last() == start.take(i as int));
        if scene[i].tessellated && !scene[i].uploaded {
            indices.push(i);
            scene[i].uploaded = true;
        }
        i = i + 1;
    }
    assert(start.take(scene@.len() as int) == start);
    assert(scene_view(scene@) =~= uploaded_scene(start));
    indices
}

} // verus!
