use vstd::prelude::*;
use crate::item::{fresh_item, ItemModel};
use crate::style::{apply_style, declares_stroke_width, fallback_paint, is_stroke_width, style_tokens, StyleTokenView};
use crate::scene::{has_paint, load_run, load_step, loaded_scene, path_data_of, LoadState, SvgTokenView};
use crate::render::{
    tessellated_item, tessellated_scene, tessellation_jobs, upload_indices, uploaded_item,
    uploaded_scene, TessellationJob,
};
use crate::input::{closes, command_of, Key, ViewCommand, WindowEvent};

verus! {

/// An item's paints are unset or the fallback colour, and it has no geometry.
pub open spec fn plain_item(item: ItemModel) -> bool {
    &&& (item.fill is None || item.fill == Some(fallback_paint()))
    &&& (item.stroke is None || item.stroke == Some(fallback_paint()))
    &&& !item.tessellated
    &&& !item.uploaded
}

proof fn lemma_style_keeps_plain(item: ItemModel, tokens: Seq<StyleTokenView>)
    requires
        plain_item(item),
    ensures
        plain_item(apply_style(item, tokens)),
        apply_style(item, tokens).path == item.path,
    decreases tokens.len(),
{
    if tokens.len() > 0 {
        lemma_style_keeps_plain(item, tokens.drop_last());
    }
}

proof fn lemma_load_run_plain(tokens: Seq<SvgTokenView>)
    ensures
        plain_item(load_run(tokens).current),
        forall|i: int| 0 <= i < load_run(tokens).items.len() ==>
            has_paint(#[trigger] load_run(tokens).items[i]) && plain_item(load_run(tokens).items[i]),
    decreases tokens.len(),
{
    if tokens.len() > 0 {
        let prefix = tokens.drop_last();
        lemma_load_run_plain(prefix);
        let state = load_run(prefix);
        match tokens.last() {
            SvgTokenView::Attribute(name, value) => {
                lemma_style_keeps_plain(state.current, style_tokens(value));
            },
            _ => {
                if has_paint(state.current) {
                    let items = state.items.push(state.current);
                    assert forall|i: int| 0 <= i < items.len() implies
                        has_paint(#[trigger] items[i]) && plain_item(items[i]) by {
                        if i < state.items.len() {
                            assert(items[i] == state.items[i]);
                        }
                    }
                }
            },
        }
    }
}

/// Every item loaded from an SVG document has a fill or a stroke; each of its
/// paints is either unset or the fallback colour (a style value is never read
/// as a colour or as `none`); and it has no geometry yet.
pub proof fn law_loaded_items_are_painted(tokens: Seq<SvgTokenView>)
    ensures
        forall|i: int| 0 <= i < loaded_scene(tokens).len() ==>
            #[trigger] has_paint(loaded_scene(tokens)[i]) && plain_item(loaded_scene(tokens)[i]),
{
    lemma_load_run_plain(tokens);
}

proof fn lemma_jobs_of_tessellated(scene: Seq<ItemModel>)
    requires
        forall|i: int| 0 <= i < scene.len() ==> (#[trigger] scene[i]).tessellated,
    ensures
        tessellation_jobs(scene) == Seq::<TessellationJob>::empty(),
    decreases scene.len(),
{
    if scene.len() > 0 {
        lemma_jobs_of_tessellated(scene.drop_last());
    }
}

/// Tessellating a scene gives every item geometry and changes nothing else of
/// an item but its geometry flags; tessellating again finds no work and
/// changes nothing.
pub proof fn law_tessellation_is_idempotent(scene: Seq<ItemModel>)
    ensures
        tessellated_scene(scene).len() == scene.len(),
        forall|i: int| 0 <= i < scene.len() ==> {
            let after = #[trigger] tessellated_scene(scene)[i];
            &&& after.tessellated
            &&& after.path == scene[i].path
            &&& after.fill == scene[i].fill
            &&& after.stroke == scene[i].stroke
            &&& after.stroke_width == scene[i].stroke_width
        },
        tessellated_scene(tessellated_scene(scene)) == tessellated_scene(scene),
        tessellation_jobs(tessellated_scene(scene)) == Seq::<TessellationJob>::empty(),
{
    let once = tessellated_scene(scene);
    assert(tessellated_scene(once) =~= once);
    lemma_jobs_of_tessellated(once);
}

proof fn lemma_nothing_to_upload(scene: Seq<ItemModel>)
    requires
        forall|i: int| 0 <= i < scene.len() ==> (#[trigger] scene[i]).tessellated ==> scene[i].uploaded,
    ensures
        upload_indices(scene) == Seq::<usize>::empty(),
    decreases scene.len(),
{
    if scene.len() > 0 {
        lemma_nothing_to_upload(scene.drop_last());
    }
}

/// Uploading leaves no geometry waiting: uploading again finds nothing and
/// changes nothing. After a tessellation and an upload every item has
/// geometry on the GPU.
pub proof fn law_upload_is_idempotent(scene: Seq<ItemModel>)
    ensures
        uploaded_scene(uploaded_scene(scene)) == uploaded_scene(scene),
        upload_indices(uploaded_scene(scene)) == Seq::<usize>::empty(),
        forall|i: int| 0 <= i < scene.len() ==>
            (#[trigger] uploaded_scene(tessellated_scene(scene))[i]).tessellated
            && uploaded_scene(tessellated_scene(scene))[i].uploaded,
{
    let once = uploaded_scene(scene);
    assert(uploaded_scene(once) =~= once);
    lemma_nothing_to_upload(once);
}

/// The indices of the jobs of a scene.
pub open spec fn job_indices(jobs: Seq<TessellationJob>) -> Seq<usize> {
    jobs.map_values(|job: TessellationJob| job.index)
}

proof fn lemma_upload_follows_tessellation(scene: Seq<ItemModel>)
    requires
        forall|i: int| 0 <= i < scene.len() ==> (#[trigger] scene[i]).tessellated ==> scene[i].uploaded,
    ensures
        upload_indices(tessellated_scene(scene)) == job_indices(tessellation_jobs(scene)),
    decreases scene.len(),
{
    if scene.len() > 0 {
        let prefix = scene.drop_last();
        lemma_upload_follows_tessellation(prefix);
        assert(tessellated_scene(scene).drop_last() =~= tessellated_scene(prefix));
        assert(job_indices(tessellation_jobs(prefix).push(crate::render::job_for(scene.len() - 1, scene.last())))
            =~= job_indices(tessellation_jobs(prefix)).push((scene.len() - 1) as usize));
    } else {
        assert(job_indices(Seq::<TessellationJob>::empty()) =~= Seq::<usize>::empty());
    }
}

/// When all the geometry a scene has is on the GPU (as for a freshly loaded
/// scene, which has none), the upload that follows a tessellation uploads
/// exactly the items that were tessellated, in the same order.
pub proof fn law_upload_follows_tessellation(scene: Seq<ItemModel>)
    requires
        forall|i: int| 0 <= i < scene.len() ==> (#[trigger] scene[i]).tessellated ==> scene[i].uploaded,
    ensures
        upload_indices(tessellated_scene(scene)) == job_indices(tessellation_jobs(scene)),
{
    lemma_upload_follows_tessellation(scene);
}

proof fn lemma_painted_jobs(scene: Seq<ItemModel>)
    requires
        forall|i: int| 0 <= i < scene.len() ==> has_paint(#[trigger] scene[i]),
    ensures
        forall|j: int| 0 <= j < tessellation_jobs(scene).len() ==>
            (#[trigger] tessellation_jobs(scene)[j]).fill is Some || tessellation_jobs(scene)[j].stroke is Some,
    decreases scene.len(),
{
    if scene.len() > 0 {
        let prefix = scene.drop_last();
        assert forall|i: int| 0 <= i < prefix.len() implies has_paint(#[trigger] prefix[i]) by {
            assert(prefix[i] == scene[i]);
        }
        lemma_painted_jobs(prefix);
        assert(has_paint(scene[scene.len() - 1]));
    }
}

/// Tessellating a freshly loaded scene gives work for every item, in order,
/// and every job has a fill pass or a stroke pass.
pub proof fn law_loaded_scene_jobs(tokens: Seq<SvgTokenView>)
    ensures
        job_indices(tessellation_jobs(loaded_scene(tokens)))
            == Seq::new(loaded_scene(tokens).len(), |i: int| i as usize),
        forall|j: int| 0 <= j < tessellation_jobs(loaded_scene(tokens)).len() ==>
            (#[trigger] tessellation_jobs(loaded_scene(tokens))[j]).fill is Some
            || tessellation_jobs(loaded_scene(tokens))[j].stroke is Some,
{
    law_loaded_items_are_painted(tokens);
    let scene = loaded_scene(tokens);
    assert forall|i: int| 0 <= i < scene.len() implies has_paint(#[trigger] scene[i]) by {}
    lemma_painted_jobs(scene);
    lemma_untessellated_jobs(scene);
}

proof fn lemma_untessellated_jobs(scene: Seq<ItemModel>)
    requires
        forall|i: int| 0 <= i < scene.len() ==> !(#[trigger] scene[i]).tessellated,
    ensures
        job_indices(tessellation_jobs(scene)) == Seq::new(scene.len(), |i: int| i as usize),
    decreases scene.len(),
{
    if scene.len() > 0 {
        let prefix = scene.drop_last();
        assert forall|i: int| 0 <= i < prefix.len() implies !(#[trigger] prefix[i]).tessellated by {
            assert(prefix[i] == scene[i]);
        }
        lemma_untessellated_jobs(prefix);
        assert(!scene[scene.len() - 1].tessellated);
        assert(job_indices(tessellation_jobs(prefix).push(crate::render::job_for(scene.len() - 1, scene.last())))
            =~= job_indices(tessellation_jobs(prefix)).push((scene.len() - 1) as usize));
        assert(Seq::new(scene.len(), |i: int| i as usize)
            =~= Seq::new(prefix.len(), |i: int| i as usize).push((scene.len() - 1) as usize));
    } else {
        assert(job_indices(Seq::<TessellationJob>::empty()) =~= Seq::new(0, |i: int| i as usize));
    }
}

/// Applying a style token by token is a left fold: applying the tokens of
/// two parts in turn has the effect of applying them together, and the whole
/// declares a stroke width exactly when one of the parts does.
pub proof fn law_style_split(item: ItemModel, first: Seq<StyleTokenView>, second: Seq<StyleTokenView>)
    ensures
        apply_style(item, first + second) == apply_style(apply_style(item, first), second),
        declares_stroke_width(first + second) == (declares_stroke_width(first) || declares_stroke_width(second)),
    decreases second.len(),
{
    if second.len() == 0 {
        assert(first + second =~= first);
    } else {
        law_style_split(item, first, second.drop_last());
        assert((first + second).drop_last() =~= first + second.drop_last());
        assert((first + second).last() == second.last());
    }
    let whole = first + second;
    if declares_stroke_width(whole) {
        let i = choose|i: int| 0 <= i < whole.len() && #[trigger] is_stroke_width(whole[i]);
        if i < first.len() {
            assert(is_stroke_width(first[i]));
        } else {
            assert(is_stroke_width(second[i - first.len()]));
        }
    }
    if declares_stroke_width(first) {
        let i = choose|i: int| 0 <= i < first.len() && #[trigger] is_stroke_width(first[i]);
        assert(is_stroke_width(whole[i]));
    }
    if declares_stroke_width(second) {
        let i = choose|i: int| 0 <= i < second.len() && #[trigger] is_stroke_width(second[i]);
        assert(is_stroke_width(whole[i + first.len()]));
    }
}

/// A frame closes the viewer exactly when one of its events is the window
/// being closed or the Escape key.
pub proof fn law_close_events(events: Seq<WindowEvent>)
    ensures
        closes(events) <==> exists|i: int| 0 <= i < events.len()
            && (#[trigger] events[i] == WindowEvent::Closed
                || events[i] == WindowEvent::KeyboardInput(Some(Key::Escape))),
{
    if closes(events) {
        let i = choose|i: int| 0 <= i < events.len() && #[trigger] command_of(events[i]) == ViewCommand::Close;
        assert(events[i] == WindowEvent::Closed || events[i] == WindowEvent::KeyboardInput(Some(Key::Escape)));
    }
    if exists|i: int| 0 <= i < events.len()
        && (#[trigger] events[i] == WindowEvent::Closed
            || events[i] == WindowEvent::KeyboardInput(Some(Key::Escape))) {
        let i = choose|i: int| 0 <= i < events.len()
            && (#[trigger] events[i] == WindowEvent::Closed
                || events[i] == WindowEvent::KeyboardInput(Some(Key::Escape)));
        assert(command_of(events[i]) == ViewCommand::Close);
    }
}

proof fn lemma_names_differ()
    ensures
        "fill"@ != "stroke"@,
        "path"@ != "style"@,
        "stroke-width"@ != "fill"@,
        "stroke-width"@ != "stroke"@,
        "stroke-width"@ != "stroke-opacity"@,
{
    reveal_strlit("fill");
    reveal_strlit("stroke");
    reveal_strlit("path");
    reveal_strlit("style");
    reveal_strlit("stroke-width");
    reveal_strlit("stroke-opacity");
    assert("fill"@.len() != "stroke"@.len());
    assert("path"@.len() != "style"@.len());
    assert("stroke-width"@.len() != "fill"@.len());
    assert("stroke-width"@.len() != "stroke"@.len());
    assert("stroke-width"@[7] != "stroke-opacity"@[7]);
}

/// Whether a style token declares the SVG property named `property`.
pub open spec fn names_property(token: StyleTokenView, property: Seq<char>) -> bool {
    token matches StyleTokenView::Declaration(name, _) && name == property
}

/// Whether some token of a style declares the SVG property named `property`.
pub open spec fn declares(tokens: Seq<StyleTokenView>, property: Seq<char>) -> bool {
    exists|i: int| 0 <= i < tokens.len() && #[trigger] names_property(tokens[i], property)
}

proof fn lemma_declares_last(tokens: Seq<StyleTokenView>, property: Seq<char>)
    requires
        tokens.len() > 0,
    ensures
        declares(tokens, property) == (declares(tokens.drop_last(), property)
            || names_property(tokens.last(), property)),
{
    let prefix = tokens.drop_last();
    if declares(tokens, property) {
        let i = choose|i: int| 0 <= i < tokens.len() && #[trigger] names_property(tokens[i], property);
        if i < prefix.len() {
            assert(names_property(prefix[i], property));
        }
    }
    if declares(prefix, property) {
        let i = choose|i: int| 0 <= i < prefix.len() && #[trigger] names_property(prefix[i], property);
        assert(names_property(tokens[i], property));
    }
    if names_property(tokens.last(), property) {
        assert(names_property(tokens[tokens.len() - 1], property));
    }
}

/// A style gives each paint on its own: the fill becomes the fallback colour
/// exactly when some declaration is of `fill`, and otherwise stays as it was;
/// the same holds of the stroke and `stroke` declarations. Nothing else of
/// the item changes.
pub proof fn law_style_sets_each_paint(item: ItemModel, tokens: Seq<StyleTokenView>)
    ensures
        apply_style(item, tokens).fill == if declares(tokens, "fill"@) {
            Some(fallback_paint())
        } else {
            item.fill
        },
        apply_style(item, tokens).stroke == if declares(tokens, "stroke"@) {
            Some(fallback_paint())
        } else {
            item.stroke
        },
        apply_style(item, tokens).path == item.path,
        apply_style(item, tokens).stroke_width == item.stroke_width,
        apply_style(item, tokens).tessellated == item.tessellated,
        apply_style(item, tokens).uploaded == item.uploaded,
    decreases tokens.len(),
{
    lemma_names_differ();
    if tokens.len() > 0 {
        law_style_sets_each_paint(item, tokens.drop_last());
        lemma_declares_last(tokens, "fill"@);
        lemma_declares_last(tokens, "stroke"@);
    }
}

/// A style is refused for its stroke width exactly when one of its
/// declarations is of the property `stroke-width`: a style whose
/// declarations are all of `fill`, `stroke` or `stroke-opacity` is accepted.
pub proof fn law_only_stroke_width_is_refused(tokens: Seq<StyleTokenView>)
    ensures
        declares_stroke_width(tokens) <==> declares(tokens, "stroke-width"@),
        (forall|i: int| 0 <= i < tokens.len() ==>
            (#[trigger] tokens[i] matches StyleTokenView::Declaration(name, _)
                ==> name == "fill"@ || name == "stroke"@ || name == "stroke-opacity"@))
            ==> !declares_stroke_width(tokens),
{
    lemma_names_differ();
    if declares_stroke_width(tokens) {
        let i = choose|i: int| 0 <= i < tokens.len() && #[trigger] is_stroke_width(tokens[i]);
        assert(names_property(tokens[i], "stroke-width"@));
    }
    if declares(tokens, "stroke-width"@) {
        let i = choose|i: int| 0 <= i < tokens.len() && #[trigger] names_property(tokens[i], "stroke-width"@);
        assert(is_stroke_width(tokens[i]));
    }
    if forall|i: int| 0 <= i < tokens.len() ==>
        (#[trigger] tokens[i] matches StyleTokenView::Declaration(name, _)
            ==> name == "fill"@ || name == "stroke"@ || name == "stroke-opacity"@) {
        if declares_stroke_width(tokens) {
            let i = choose|i: int| 0 <= i < tokens.len() && #[trigger] is_stroke_width(tokens[i]);
            assert(tokens[i] matches StyleTokenView::Declaration(name, _));
        }
    }
}

/// The tessellation jobs of a scene are, in increasing order of index, one
/// for each item without geometry, and each carries that item's own fill,
/// stroke and stroke width.
pub proof fn law_jobs_carry_their_items(scene: Seq<ItemModel>)
    requires
        scene.len() <= usize::MAX,
    ensures
        forall|j: int| 0 <= j < tessellation_jobs(scene).len() ==> {
            let job = #[trigger] tessellation_jobs(scene)[j];
            &&& 0 <= job.index < scene.len()
            &&& !scene[job.index as int].tessellated
            &&& job.fill == scene[job.index as int].fill
            &&& job.stroke == scene[job.index as int].stroke
            &&& job.stroke_width == scene[job.index as int].stroke_width
        },
        forall|j: int, k: int| 0 <= j < k < tessellation_jobs(scene).len() ==>
            (#[trigger] tessellation_jobs(scene)[j]).index < (#[trigger] tessellation_jobs(scene)[k]).index,
        forall|i: int| 0 <= i < scene.len() && !(#[trigger] scene[i]).tessellated ==>
            exists|j: int| 0 <= j < tessellation_jobs(scene).len()
                && (#[trigger] tessellation_jobs(scene)[j]).index == i,
    decreases scene.len(),
{
    if scene.len() > 0 {
        let prefix = scene.drop_last();
        law_jobs_carry_their_items(prefix);
        let rest = tessellation_jobs(prefix);
        let jobs = tessellation_jobs(scene);
        assert forall|j: int| 0 <= j < jobs.len() implies {
            let job = #[trigger] jobs[j];
            &&& 0 <= job.index < scene.len()
            &&& !scene[job.index as int].tessellated
            &&& job.fill == scene[job.index as int].fill
            &&& job.stroke == scene[job.index as int].stroke
            &&& job.stroke_width == scene[job.index as int].stroke_width
        } by {
            if j < rest.len() {
                assert(jobs[j] == rest[j]);
                assert(scene[rest[j].index as int] == prefix[rest[j].index as int]);
            }
        }
        assert forall|j: int, k: int| 0 <= j < k < jobs.len() implies
            (#[trigger] jobs[j]).index < (#[trigger] jobs[k]).index by {
            assert(jobs[j] == rest[j]);
            if k < rest.len() {
                assert(jobs[k] == rest[k]);
            } else {
                assert(0 <= rest[j].index < prefix.len());
            }
        }
        assert forall|i: int| 0 <= i < scene.len() && !(#[trigger] scene[i]).tessellated implies
            exists|j: int| 0 <= j < jobs.len() && (#[trigger] jobs[j]).index == i by {
            if i < prefix.len() {
                assert(!prefix[i].tessellated);
                let j = choose|j: int| 0 <= j < rest.len() && (#[trigger] rest[j]).index == i;
                assert(jobs[j] == rest[j]);
            } else {
                assert(jobs[jobs.len() - 1].index == i);
            }
        }
    }
}

/// The loader's steps: the start of a `path` element always starts a fresh
/// item, whatever the current one holds, and completes nothing; a `path`
/// attribute sets the current item's path data and nothing else; the end of
/// a tag completes the current item, and starts a fresh one, exactly when it
/// has a fill or a stroke, whichever form the end takes; a `style` attribute
/// applies its declarations to the current item; any other element start,
/// attribute, content or error changes nothing.
pub proof fn law_loader_steps(state: LoadState, name: Seq<char>, value: Seq<char>)
    ensures
        load_step(state, SvgTokenView::ElementStart("path"@)).current == fresh_item(),
        load_step(state, SvgTokenView::ElementStart("path"@)).items == state.items,
        load_step(state, SvgTokenView::Attribute("path"@, value)).current
            == (ItemModel { path: Some(value), ..state.current }),
        load_step(state, SvgTokenView::Attribute("path"@, value)).items == state.items,
        has_paint(state.current) ==> load_step(state, SvgTokenView::EmptyElementEnd)
            == (LoadState { current: fresh_item(), items: state.items.push(state.current) }),
        !has_paint(state.current) ==> load_step(state, SvgTokenView::EmptyElementEnd) == state,
        load_step(state, SvgTokenView::TagOpenEnd) == load_step(state, SvgTokenView::EmptyElementEnd),
        load_step(state, SvgTokenView::ElementClose) == load_step(state, SvgTokenView::EmptyElementEnd),
        load_step(state, SvgTokenView::Attribute("style"@, value))
            == (LoadState { current: apply_style(state.current, style_tokens(value)), items: state.items }),
        name != "path"@ ==> load_step(state, SvgTokenView::ElementStart(name)) == state,
        name != "path"@ && name != "style"@ ==> load_step(state, SvgTokenView::Attribute(name, value)) == state,
        load_step(state, SvgTokenView::Content) == state,
        load_step(state, SvgTokenView::Error) == state,
{
    lemma_names_differ();
}

/// The path data of a document lists every `path` attribute once, in order:
/// appending a `path` attribute appends its value, whatever the value, and
/// appending any other token changes nothing.
pub proof fn law_path_data_per_attribute(tokens: Seq<SvgTokenView>, value: Seq<char>, other: SvgTokenView)
    ensures
        path_data_of(Seq::<SvgTokenView>::empty()) == Seq::<Seq<char>>::empty(),
        path_data_of(tokens.push(SvgTokenView::Attribute("path"@, value))) == path_data_of(tokens).push(value),
        !(other matches SvgTokenView::Attribute(name, _) && name == "path"@)
            ==> path_data_of(tokens.push(other)) == path_data_of(tokens),
{
    lemma_names_differ();
    assert(tokens.push(SvgTokenView::Attribute("path"@, value)).drop_last() == tokens);
    assert(tokens.push(other).drop_last() == tokens);
}

/// The indices to upload are, in increasing order, exactly those of the
/// items that have geometry that is not uploaded.
pub proof fn law_upload_indices_are_waiting_items(scene: Seq<ItemModel>)
    requires
        scene.len() <= usize::MAX,
    ensures
        forall|j: int| 0 <= j < upload_indices(scene).len() ==> {
            let index = #[trigger] upload_indices(scene)[j];
            &&& 0 <= index < scene.len()
            &&& scene[index as int].tessellated
            &&& !scene[index as int].uploaded
        },
        forall|j: int, k: int| 0 <= j < k < upload_indices(scene).len() ==>
            #[trigger] upload_indices(scene)[j] < #[trigger] upload_indices(scene)[k],
        forall|i: int| 0 <= i < scene.len() && (#[trigger] scene[i]).tessellated && !scene[i].uploaded ==>
            exists|j: int| 0 <= j < upload_indices(scene).len() && #[trigger] upload_indices(scene)[j] == i,
    decreases scene.len(),
{
    if scene.len() > 0 {
        let prefix = scene.drop_last();
        law_upload_indices_are_waiting_items(prefix);
        let rest = upload_indices(prefix);
        let all = upload_indices(scene);
        assert forall|j: int| 0 <= j < all.len() implies {
            let index = #[trigger] all[j];
            &&& 0 <= index < scene.len()
            &&& scene[index as int].tessellated
            &&& !scene[index as int].uploaded
        } by {
            if j < rest.len() {
                assert(all[j] == rest[j]);
                assert(scene[rest[j] as int] == prefix[rest[j] as int]);
            }
        }
        assert forall|j: int, k: int| 0 <= j < k < all.len() implies #[trigger] all[j] < #[trigger] all[k] by {
            assert(all[j] == rest[j]);
            if k < rest.len() {
                assert(all[k] == rest[k]);
            } else {
                assert(0 <= rest[j] < prefix.len());
            }
        }
        assert forall|i: int| 0 <= i < scene.len() && (#[trigger] scene[i]).tessellated && !scene[i].uploaded implies
            exists|j: int| 0 <= j < all.len() && #[trigger] all[j] == i by {
            if i < prefix.len() {
                assert(prefix[i] == scene[i]);
                let j = choose|j: int| 0 <= j < rest.len() && #[trigger] rest[j] == i;
                assert(all[j] == rest[j]);
            } else {
                assert(all[all.len() - 1] == i);
            }
        }
    }
}

} // verus!
