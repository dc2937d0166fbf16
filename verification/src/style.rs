use vstd::prelude::*;
use lyon_svg::parser::{AttributeId, AttributeValue, ElementId, FromSpan, ValueId};
use lyon_svg::parser::style::{Token as StyleParserToken, Tokenizer as StyleParser};
use crate::item::{ItemModel, RenderItem, Rgb, StrokeWidth};

verus! {

/// One item of a `style` attribute, as the style tokenizer yields it: a
/// declaration of an SVG property (the property's name and the value text), a
/// declaration of a property that is not an SVG one (name and value), an
/// entity reference (its name), or a tokenizer error.
#[derive(PartialEq, Eq, Debug)]
pub enum StyleToken {
    Declaration(String, String),
    XmlDeclaration(String, String),
    EntityRef(String),
    Failed,
}

/// The view of a `StyleToken`.
pub enum StyleTokenView {
    Declaration(Seq<char>, Seq<char>),
    XmlDeclaration(Seq<char>, Seq<char>),
    EntityRef(Seq<char>),
    Failed,
}

impl View for StyleToken {
    type V = StyleTokenView;

    open spec fn view(&self) -> StyleTokenView {
        match self {
            StyleToken::Declaration(name, value) => StyleTokenView::Declaration(name@, value@),
            StyleToken::XmlDeclaration(name, value) => StyleTokenView::XmlDeclaration(name@, value@),
            StyleToken::EntityRef(name) => StyleTokenView::EntityRef(name@),
            StyleToken::Failed => StyleTokenView::Failed,
        }
    }
}

/// The views of a sequence of style tokens.
pub open spec fn style_views(tokens: Seq<StyleToken>) -> Seq<StyleTokenView> {
    tokens.map_values(|t: StyleToken| t@)
}

/// The value of a style declaration, as the SVG attribute value parser
/// reports it; numbers are carried as the bits of the `f64`.
#[derive(Clone, Copy, PartialEq, Eq, Debug)]
pub enum StyleValue {
    Color(Rgb),
    NoneKeyword,
    Number(u64),
    Length(u64),
    Unrecognized,
    Invalid,
}

/// The tokens that the style tokenizer of `svgparser` yields for `text`.
pub uninterp spec fn style_tokens(text: Seq<char>) -> Seq<StyleTokenView>;

/// Runs `svgparser::style::Tokenizer` over `text` and converts each item it
/// yields into a `StyleToken`, in order (an SVG property by its name,
/// `AttributeId::name`). The result is named by `style_tokens`; nothing more
/// is stated of it.
#[verifier::external_body]
pub(crate) fn tokenize_style(text: &str) -> (tokens: Vec<StyleToken>)
    ensures
        style_views(tokens@) == style_tokens(text@),
{
    let mut tokens = Vec::new();
    for item in StyleParser::from_str(text) {
        tokens.push(match item {
            Ok(StyleParserToken::SvgAttribute(id, v)) => StyleToken::Declaration(id.name().to_string(), v.to_str().to_string()),
            Ok(StyleParserToken::XmlAttribute(name, v)) => StyleToken::XmlDeclaration(name.to_string(), v.to_string()),
            Ok(StyleParserToken::EntityRef(name)) => StyleToken::EntityRef(name.to_string()),
            Err(_) => StyleToken::Failed,
        });
    }
    tokens
}

/// Calls `svgparser::AttributeValue::from_span` for the element `path` and
/// the attribute `style` on `text`, and converts the result. The crate's
/// documentation states that a `style` value is parsed as an
/// `AttributeValue::String` (an entity reference `&name;` as an
/// `AttributeValue::EntityRef`), and its source returns no error for it: so
/// the result is always `Unrecognized`.
#[verifier::external_body]
fn style_attribute_value(text: &str) -> (value: StyleValue)
    ensures
        value == StyleValue::Unrecognized,
{
    match AttributeValue::from_str(ElementId::Path, AttributeId::Style, text) {
        Ok(AttributeValue::Color(c)) => StyleValue::Color(Rgb { red: c.red, green: c.green, blue: c.blue }),
        Ok(AttributeValue::PredefValue(ValueId::None)) => StyleValue::NoneKeyword,
        Ok(AttributeValue::Number(n)) => StyleValue::Number(n.to_bits()),
        Ok(AttributeValue::Length(l)) => StyleValue::Length(l.num.to_bits()),
        Ok(_) => StyleValue::Unrecognized,
        Err(_) => StyleValue::Invalid,
    }
}

/// The colour a `fill` or `stroke` declaration gets when its value is neither
/// a colour nor `none`.
pub open spec fn fallback_paint() -> Rgb {
    Rgb { red: 255, green: 0, blue: 0 }
}

/// Whether a style token declares the SVG property `stroke-width`.
pub open spec fn is_stroke_width(token: StyleTokenView) -> bool {
    token matches StyleTokenView::Declaration(name, _) && name == "stroke-width"@
}

/// Whether a style declares a stroke width, which the loader cannot use.
pub open spec fn declares_stroke_width(tokens: Seq<StyleTokenView>) -> bool {
    exists|i: int| 0 <= i < tokens.len() && #[trigger] is_stroke_width(tokens[i])
}

/// The effect of one style token on an item: since every declaration value
/// of a `style` attribute is parsed as unrecognized, a `fill` or `stroke`
/// declaration sets that paint to the fallback colour; other tokens change
/// nothing.
pub open spec fn apply_style_token(item: ItemModel, token: StyleTokenView) -> ItemModel {
    match token {
        StyleTokenView::Declaration(name, _) => if name == "fill"@ {
            ItemModel { fill: Some(fallback_paint()), ..item }
        } else if name == "stroke"@ {
            ItemModel { stroke: Some(fallback_paint()), ..item }
        } else {
            item
        },
        _ => item,
    }
}

/// The effect of a sequence of style tokens, applied in order.
pub open spec fn apply_style(item: ItemModel, tokens: Seq<StyleTokenView>) -> ItemModel
    decreases tokens.len(),
{
    if tokens.len() == 0 {
        item
    } else {
        apply_style_token(apply_style(item, tokens.drop_last()), tokens.last())
    }
}

/// Whether `name` is the text `expected`.
pub(crate) fn is_name(name: &String, expected: &str) -> (same: bool)
    ensures
        same == (name@ == expected@),
{
    *name == expected.to_owned()
}

/// The paint a `fill` or `stroke` declaration with this value gives: its
/// colour, none for `none` or for a value that failed to parse, and the
/// fallback colour for anything else.
fn paint_of(value: StyleValue) -> (paint: Option<Rgb>)
    ensures
        value == StyleValue::Unrecognized ==> paint == Some(fallback_paint()),
{
    match value {
        StyleValue::Color(c) => Some(c),
        StyleValue::NoneKeyword | StyleValue::Invalid => None,
        _ => Some(Rgb { red: 255, green: 0, blue: 0 }),
    }
}

/// Applies style tokens to an item, in order: `fill` and `stroke`
/// declarations set the paint that their value gives.
pub fn apply_style_tokens(tokens: &Vec<StyleToken>, item: &mut RenderItem)
    requires
        !declares_stroke_width(style_views(tokens@)),
    ensures
        final(item)@ == apply_style(old(item)@, style_views(tokens@)),
{
    let ghost views = style_views(tokens@);
    let ghost start = item@;
    let mut i: usize = 0;
    while i < tokens.len()
        invariant
            views == style_views(tokens@),
            !declares_stroke_width(views),
            0 <= i <= tokens.len(),
            item@ == apply_style(start, views.take(i as int)),
        decreases tokens.len() - i,
    {
        assert(views.take(i + 1).drop_last() == views.take(i as int));
        assert(views[i as int] == tokens@[i as int]@);
        if let StyleToken::Declaration(name, text) = &tokens[i] {
            let value = style_attribute_value(text.as_str());
            if is_name(name, "fill") {
                item.fill = paint_of(value);
            } else if is_name(name, "stroke") {
                item.stroke = paint_of(value);
            } else if is_name(name, "stroke-width") {
                // A stroke width is only usable as a number or a length,
                // which a style value never is; the caller excludes it.
                assert(is_stroke_width(views[i as int]));
                match value {
                    StyleValue::Number(bits) => {
                        item.stroke_width = StrokeWidth::Number(bits);
                    },
                    StyleValue::Length(bits) => {
                        item.stroke_width = StrokeWidth::Length(bits);
                    },
                    _ => {},
                }
            }
        }
        i = i + 1;
    }
    assert(views.take(tokens.len() as int) == views);
}

/// Whether a sequence of style tokens declares a stroke width.
pub fn has_stroke_width(tokens: &Vec<StyleToken>) -> (found: bool)
    ensures
        found == declares_stroke_width(style_views(tokens@)),
{
    let ghost views = style_views(tokens@);
    let mut i: usize = 0;
    while i < tokens.len()
        invariant
            views == style_views(tokens@),
            0 <= i <= tokens.len(),
            forall|j: int| 0 <= j < i ==> !#[trigger] is_stroke_width(views[j]),
        decreases tokens.len() - i,
    {
        assert(views[i as int] == tokens@[i as int]@);
        if let StyleToken::Declaration(name, _) = &tokens[i] {
            if is_name(name, "stroke-width") {
                assert(is_stroke_width(views[i as int]));
                return true;
            }
        }
        i = i + 1;
    }
    false
}

/// Whether a `style` attribute's text can be applied: it declares no stroke
/// width.
pub fn style_is_supported(style: &str) -> (supported: bool)
    ensures
        supported == !declares_stroke_width(style_tokens(style@)),
{
    let tokens = tokenize_style(style);
    !has_stroke_width(&tokens)
}

/// Applies the declarations of a `style` attribute to an item: a `fill` or
/// `stroke` declaration gives the item that paint.
pub fn parse_style(style: &str, item: &mut RenderItem)
    requires
        !declares_stroke_width(style_tokens(style@)),
    ensures
        final(item)@ == apply_style(old(item)@, style_tokens(style@)),
{
    let tokens = tokenize_style(style);
    apply_style_tokens(&tokens, item);
}

} // verus!
