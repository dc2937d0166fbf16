use vstd::prelude::*;
use lyon_svg::parser::FromSpan;
use lyon_svg::parser::svg::{ElementEnd as E, Name as N, Token as T, Tokenizer as SvgParser};
use crate::item::{fresh_item, ItemModel, RenderItem};
use crate::style::{
    apply_style, declares_stroke_width, is_name, parse_style, style_is_supported, style_tokens,
};

verus! {

/// One token of an SVG document, as the SVG tokenizer yields it: the start
/// of an element, with the element's name; the end of an element's tag, as
/// `>` (`TagOpenEnd`), `</name>` (`ElementClose`, the name is not carried) or
/// `/>` (`EmptyElementEnd`); an attribute, with its name and value text;
/// content that is neither an element nor an attribute (declarations,
/// processing instructions, entity declarations, comments, text, CDATA,
/// whitespace); or a tokenizer error. A name is its text (for a name that
/// svgparser knows, `ElementId::name` or `AttributeId::name`).
#[derive(PartialEq, Eq, Debug)]
pub enum SvgToken {
    ElementStart(String),
    TagOpenEnd,
    ElementClose,
    EmptyElementEnd,
    Attribute(String, String),
    Content,
    Error,
}

/// The view of an `SvgToken`.
pub enum SvgTokenView {
    ElementStart(Seq<char>),
    TagOpenEnd,
    ElementClose,
    EmptyElementEnd,
    Attribute(Seq<char>, Seq<char>),
    Content,
    Error,
}

impl View for SvgToken {
    type V = SvgTokenView;

    open spec fn view(&self) -> SvgTokenView {
        match self {
            SvgToken::ElementStart(name) => SvgTokenView::ElementStart(name@),
            SvgToken::TagOpenEnd => SvgTokenView::TagOpenEnd,
            SvgToken::ElementClose => SvgTokenView::ElementClose,
            SvgToken::EmptyElementEnd => SvgTokenView::EmptyElementEnd,
            SvgToken::Attribute(name, value) => SvgTokenView::Attribute(name@, value@),
            SvgToken::Content => SvgTokenView::Content,
            SvgToken::Error => SvgTokenView::Error,
        }
    }
}

/// The views of a sequence of SVG tokens.
pub open spec fn token_views(tokens: Seq<SvgToken>) -> Seq<SvgTokenView> {
    tokens.map_values(|t: SvgToken| t@)
}

/// The tokens that the SVG tokenizer of `svgparser` yields for `text`.
pub uninterp spec fn svg_tokens(text: Seq<char>) -> Seq<SvgTokenView>;

/// Runs `svgparser::svg::Tokenizer` over `text` and converts each item it
/// yields into an `SvgToken`, in order. The result is named by `svg_tokens`;
/// nothing more is stated of it.
#[verifier::external_body]
fn tokenize_svg(text: &str) -> (tokens: Vec<SvgToken>)
    ensures
        token_views(tokens@) == svg_tokens(text@),
{
    SvgParser::from_str(text).map(|item| match item {
        Ok(T::ElementStart(n)) => SvgToken::ElementStart(match &n { N::Svg(id) => id.name(), N::Xml(s) => s }.into()),
        Ok(T::ElementEnd(E::Open)) => SvgToken::TagOpenEnd,
        Ok(T::ElementEnd(E::Close(_))) => SvgToken::ElementClose,
        Ok(T::ElementEnd(E::Empty)) => SvgToken::EmptyElementEnd,
        Ok(T::Attribute(n, v)) => SvgToken::Attribute(match &n { N::Svg(id) => id.name(), N::Xml(s) => s }.into(), v.to_string()),
        Ok(_) => SvgToken::Content,
        Err(_) => SvgToken::Error,
    }).collect()
}

/// The loader's state: the item being read and the items completed so far.
pub struct LoadState {
    pub current: ItemModel,
    pub items: Seq<ItemModel>,
}

/// Whether an item has a fill or a stroke, so that it is worth keeping.
pub open spec fn has_paint(item: ItemModel) -> bool {
    item.fill is Some || item.stroke is Some
}

/// Whether a token ends an element's tag, in any of its three forms.
pub open spec fn is_element_end(token: SvgTokenView) -> bool {
    ||| token is TagOpenEnd
    ||| token is ElementClose
    ||| token is EmptyElementEnd
}

/// One step of the loader: the start of a `path` element starts a fresh
/// item; the end of a tag completes the current item if it has a paint (and
/// starts a fresh one); a `style` attribute applies its declarations; a
/// `path` attribute sets the path data. Other tokens change nothing.
pub open spec fn load_step(state: LoadState, token: SvgTokenView) -> LoadState {
    match token {
        SvgTokenView::ElementStart(name) => if name == "path"@ {
            LoadState { current: fresh_item(), ..state }
        } else {
            state
        },
        SvgTokenView::Attribute(name, value) => if name == "style"@ {
            LoadState { current: apply_style(state.current, style_tokens(value)), ..state }
        } else if name == "path"@ {
            LoadState { current: ItemModel { path: Some(value), ..state.current }, ..state }
        } else {
            state
        },
        _ => if is_element_end(token) && has_paint(state.current) {
            LoadState { current: fresh_item(), items: state.items.push(state.current) }
        } else {
            state
        },
    }
}

/// The loader's state after the tokens, from a fresh item and no items.
pub open spec fn load_run(tokens: Seq<SvgTokenView>) -> LoadState
    decreases tokens.len(),
{
    if tokens.len() == 0 {
        LoadState { current: fresh_item(), items: Seq::empty() }
    } else {
        load_step(load_run(tokens.drop_last()), tokens.last())
    }
}

/// The items loaded from a token sequence.
pub open spec fn loaded_scene(tokens: Seq<SvgTokenView>) -> Seq<ItemModel> {
    load_run(tokens).items
}

/// Whether a token is a `style` attribute whose declarations the loader
/// cannot apply (it declares a stroke width).
pub open spec fn unsupported_style(token: SvgTokenView) -> bool {
    token matches SvgTokenView::Attribute(name, value) && name == "style"@
        && declares_stroke_width(style_tokens(value))
}

/// No `style` attribute among the tokens declares a stroke width.
pub open spec fn styles_supported(tokens: Seq<SvgTokenView>) -> bool {
    forall|i: int| 0 <= i < tokens.len() ==> !#[trigger] unsupported_style(tokens[i])
}

/// The models of the items of a scene.
pub open spec fn scene_view(scene: Seq<RenderItem>) -> Seq<ItemModel> {
    scene.map_values(|item: RenderItem| item@)
}

/// Builds the scene from SVG tokens.
pub fn scene_from_tokens(tokens: &Vec<SvgToken>) -> (scene: Vec<RenderItem>)
    requires
        styles_supported(token_views(tokens@)),
    ensures
        scene_view(scene@) == loaded_scene(token_views(tokens@)),
{
    let ghost views = token_views(tokens@);
    let mut current = RenderItem::new();
    let mut items: Vec<RenderItem> = Vec::new();
    let mut i: usize = 0;
    while i < tokens.len()
        invariant
            views == token_views(tokens@),
            styles_supported(views),
            0 <= i <= tokens.len(),
            current@ == load_run(views.take(i as int)).current,
            scene_view(items@) == load_run(views.take(i as int)).items,
        decreases tokens.len() - i,
    {
        assert(views.take(i + 1).drop_last() == views.take(i as int));
        assert(views[i as int] == tokens@[i as int]@);
        let ends = match &tokens[i] {
            SvgToken::TagOpenEnd | SvgToken::ElementClose | SvgToken::EmptyElementEnd => true,
            _ => false,
        };
        match &tokens[i] {
            SvgToken::ElementStart(name) => {
                if is_name(name, "path") {
                    current = RenderItem::new();
                }
            },
            SvgToken::Attribute(name, value) => {
                if is_name(name, "style") {
                    assert(!unsupported_style(views[i as int]));
                    parse_style(value.as_str(), &mut current);
                } else if is_name(name, "path") {
                    current.path = Some(value.clone());
                }
            },
            _ => {
                if ends && (current.fill.is_some() || current.stroke.is_some()) {
                    let mut done = RenderItem::new();
                    std::mem::swap(&mut current, &mut done);
                    let ghost before = items@;
                    items.push(done);
                    assert(scene_view(items@) == scene_view(before).push(done@));
                }
            },
        }
        i = i + 1;
    }
    assert(views.take(tokens.len() as int) == views);
    items
}

/// Whether no `style` attribute among the tokens declares a stroke width.
pub fn styles_are_supported(tokens: &Vec<SvgToken>) -> (supported: bool)
    ensures
        supported == styles_supported(token_views(tokens@)),
{
    let ghost views = token_views(tokens@);
    let mut i: usize = 0;
    while i < tokens.len()
        invariant
            views == token_views(tokens@),
            0 <= i <= tokens.len(),
            forall|j: int| 0 <= j < i ==> !#[trigger] unsupported_style(views[j]),
        decreases tokens.len() - i,
    {
        assert(views[i as int] == tokens@[i as int]@);
        if let SvgToken::Attribute(name, value) = &tokens[i] {
            if is_name(name, "style") && !style_is_supported(value.as_str()) {
                assert(unsupported_style(views[i as int]));
                return false;
            }
        }
        i = i + 1;
    }
    true
}

/// Loads the paint items of an SVG document: the end of each tag completes
/// the current item when a `style` attribute gave it a fill or a stroke; a
/// `path` element starts a new item; `path` attributes give the item its
/// path data. The document's styles must declare no stroke width.
pub fn load_svg(text: &str) -> (scene: Vec<RenderItem>)
    requires
        styles_supported(svg_tokens(text@)),
    ensures
        scene_view(scene@) == loaded_scene(svg_tokens(text@)),
{
    let tokens = tokenize_svg(text);
    scene_from_tokens(&tokens)
}

/// The values of the `path` attributes among the tokens, in order: the path
/// data the loader reads, whether or not its item is kept.
pub open spec fn path_data_of(tokens: Seq<SvgTokenView>) -> Seq<Seq<char>>
    decreases tokens.len(),
{
    if tokens.len() == 0 {
        Seq::empty()
    } else {
        let rest = path_data_of(tokens.drop_last());
        match tokens.last() {
            SvgTokenView::Attribute(name, value) => if name == "style"@ {
                rest
            } else if name == "path"@ {
                rest.push(value)
            } else {
                rest
            },
            _ => rest,
        }
    }
}

/// The path data of every `path` attribute of an SVG document, in document
/// order, including attributes whose item is not kept or whose value a later
/// `path` attribute replaces.
pub fn path_attribute_data(text: &str) -> (values: Vec<String>)
    ensures
        values@.map_values(|v: String| v@) == path_data_of(svg_tokens(text@)),
{
    let tokens = tokenize_svg(text);
    let ghost views = token_views(tokens@);
    let mut values: Vec<String> = Vec::new();
    let mut i: usize = 0;
    while i < tokens.len()
        invariant
            views == token_views(tokens@),
            0 <= i <= tokens.len(),
            values@.map_values(|v: String| v@) == path_data_of(views.take(i as int)),
        decreases tokens.len() - i,
    {
        assert(views.take(i + 1).drop_last() == views.take(i as int));
        assert(views[i as int] == tokens@[i as int]@);
        if let SvgToken::Attribute(name, value) = &tokens[i] {
            if !is_name(name, "style") && is_name(name, "path") {
                let ghost before = values@;
                values.push(value.clone());
                assert(values@.map_values(|v: String| v@) == before.map_values(|v: String| v@).push(value@));
            }
        }
        i = i + 1;
    }
    assert(views.take(tokens.len() as int) == views);
    assert(token_views(tokens@) == svg_tokens(text@));
    values
}

/// Why an SVG document could not be loaded.
#[derive(Clone, Copy, PartialEq, Eq, Debug)]
pub enum LoadError {
    /// A `style` attribute declares a stroke width, which is read only as a
    /// number or a length, and a style value is neither.
    UnsupportedStrokeWidth,
}

/// Loads an SVG document as `load_svg` does, after testing that its styles
/// declare no stroke width; fails exactly when one does.
pub fn try_load_svg(text: &str) -> (result: Result<Vec<RenderItem>, LoadError>)
    ensures
        match result {
            Ok(scene) => styles_supported(svg_tokens(text@))
                && scene_view(scene@) == loaded_scene(svg_tokens(text@)),
            Err(error) => error == LoadError::UnsupportedStrokeWidth
                && !styles_supported(svg_tokens(text@)),
        },
{
    let tokens = tokenize_svg(text);
    if styles_are_supported(&tokens) {
        Ok(load_svg(text))
    } else {
        Err(LoadError::UnsupportedStrokeWidth)
    }
}

} // verus!
