//! The BBCode that the archive stores for the site's HTML tags: which tag an element stands for,
//! and the markup that each tag opens and closes with.

use vstd::prelude::*;

use crate::text::{chars_of, same_text, string_of};

verus! {

/// The colours of coloured text on /qst/.
#[derive(Clone, Copy, Debug, PartialEq, Eq, Structural)]
pub enum Color {
    Red,
    Green,
    Blue,
}

/// What an element of a comment stands for.
#[derive(Debug)]
pub enum FourChanTag {
    /// (USER WAS BANNED FOR THIS POST)
    Banned,
    /// `<b>`, and `<span class="mu-s">` on /qst/.
    Bold,
    /// `<br>`.
    Break,
    /// `<pre class="prettyprint">` on /g/.
    Code,
    /// `<table class="exif">`, and `<span class="abbr">` that holds its show/hide link, on /p/.
    Exif,
    /// A coloured fortune on /s4s/, with its colour where the style gives one.
    Fortune(Option<String>),
    /// `<i>`, and `<span class="mu-i">` on /qst/.
    Italic,
    /// Plain links, `<a class="quotelink">`, and `<span class="deadlink">`.
    Link,
    /// Coloured text on /qst/.
    QstColor(Color),
    /// An element whose text is kept but whose tags are not: `<wbr>`, and the root.
    Quiet,
    /// `> implying`.
    Quote,
    /// Shift_JIS art on /jp/ and /vip/.
    ShiftJis,
    /// `<s>`.
    Spoiler,
    /// `<sub>`.
    Subscript,
    /// `<sup>`.
    Superscript,
    /// `<u>`.
    Underline,
    /// An element that is not recognised and is kept as HTML, with its name.
    Unknown(String),
}

/// The model of a tag, with its texts as sequences of characters.
pub enum TagModel {
    Banned,
    Bold,
    Break,
    Code,
    Exif,
    Fortune(Option<Seq<char>>),
    Italic,
    Link,
    QstColor(Color),
    Quiet,
    Quote,
    ShiftJis,
    Spoiler,
    Subscript,
    Superscript,
    Underline,
    Unknown(Seq<char>),
}

impl View for FourChanTag {
    type V = TagModel;

    open spec fn view(&self) -> TagModel {
        match self {
            FourChanTag::Banned => TagModel::Banned,
            FourChanTag::Bold => TagModel::Bold,
            FourChanTag::Break => TagModel::Break,
            FourChanTag::Code => TagModel::Code,
            FourChanTag::Exif => TagModel::Exif,
            FourChanTag::Fortune(c) => TagModel::Fortune(
                match c {
                    Some(s) => Some(s@),
                    None => None,
                },
            ),
            FourChanTag::Italic => TagModel::Italic,
            FourChanTag::Link => TagModel::Link,
            FourChanTag::QstColor(c) => TagModel::QstColor(*c),
            FourChanTag::Quiet => TagModel::Quiet,
            FourChanTag::Quote => TagModel::Quote,
            FourChanTag::ShiftJis => TagModel::ShiftJis,
            FourChanTag::Spoiler => TagModel::Spoiler,
            FourChanTag::Subscript => TagModel::Subscript,
            FourChanTag::Superscript => TagModel::Superscript,
            FourChanTag::Underline => TagModel::Underline,
            FourChanTag::Unknown(n) => TagModel::Unknown(n@),
        }
    }
}

/// The colour digits of a fortune's style: the first group of the leftmost match of
/// `color:#([[:xdigit:]]{3}{1,2})`.
pub uninterp spec fn fortune_color_of(style: Seq<char>) -> Option<Seq<char>>;

/// Whether a style matches `color:\s*red`, as the site marks bans.
pub uninterp spec fn banned_style_of(style: Seq<char>) -> bool;

/// Relies on regex's `Regex::new` and `captures` with the pattern
/// `color:#([[:xdigit:]]{3}{1,2})`, which is valid: the first group of the leftmost match, a
/// function of the text alone.
#[verifier::external_body]
fn fortune_color(style: &str) -> (r: Option<String>)
    ensures
        match r {
            Some(c) => fortune_color_of(style@) == Some(c@),
            None => fortune_color_of(style@) is None,
        },
{
    let pattern = regex::Regex::new(r"color:#([[:xdigit:]]{3}{1,2})").unwrap();
    match pattern.captures(style) {
        Some(captures) => match captures.get(1) {
            Some(m) => Some(m.as_str().to_string()),
            None => None,
        },
        None => None,
    }
}

/// Relies on regex's `Regex::new` and `is_match` with the pattern `color:\s*red`, which is
/// valid: whether the text holds a match, a function of the text alone.
#[verifier::external_body]
fn is_banned_style(style: &str) -> (r: bool)
    ensures
        r == banned_style_of(style@),
{
    regex::Regex::new(r"color:\s*red").unwrap().is_match(style)
}

/// The tag of an element with a class.
pub open spec fn class_tag(name: Seq<char>, class: Seq<char>, style: Option<Seq<char>>) -> TagModel {
    if (name == "a"@ && class == "quotelink"@) || (name == "span"@ && class == "deadlink"@) {
        TagModel::Link
    } else if name == "pre"@ && class == "prettyprint"@ {
        TagModel::Code
    } else if (name == "table"@ && class == "exif"@) || (name == "span"@ && class == "abbr"@) {
        TagModel::Exif
    } else if name == "span"@ && class == "fortune"@ {
        TagModel::Fortune(
            match style {
                Some(s) => fortune_color_of(s),
                None => None,
            },
        )
    } else if name == "span"@ && class == "mu-s"@ {
        TagModel::Bold
    } else if name == "span"@ && class == "mu-i"@ {
        TagModel::Italic
    } else if name == "span"@ && class == "mu-r"@ {
        TagModel::QstColor(Color::Red)
    } else if name == "span"@ && class == "mu-g"@ {
        TagModel::QstColor(Color::Green)
    } else if name == "span"@ && class == "mu-b"@ {
        TagModel::QstColor(Color::Blue)
    } else if name == "span"@ && class == "quote"@ {
        TagModel::Quote
    } else if name == "span"@ && class == "sjis"@ {
        TagModel::ShiftJis
    } else {
        TagModel::Unknown(name)
    }
}

/// The tag of an element without attributes that decide otherwise.
pub open spec fn plain_tag(name: Seq<char>) -> TagModel {
    if name == "a"@ {
        TagModel::Link
    } else if name == "b"@ {
        TagModel::Bold
    } else if name == "br"@ {
        TagModel::Break
    } else if name == "i"@ {
        TagModel::Italic
    } else if name == "s"@ {
        TagModel::Spoiler
    } else if name == "sub"@ {
        TagModel::Subscript
    } else if name == "sup"@ {
        TagModel::Superscript
    } else if name == "u"@ {
        TagModel::Underline
    } else if name == "wbr"@ {
        TagModel::Quiet
    } else {
        TagModel::Unknown(name)
    }
}

/// The tag of an element from its name, its class and its style: the class decides where there
/// is one, then a style that marks a ban on `<b>` or `<strong>`, then the name alone.
pub open spec fn tag_model(name: Seq<char>, class: Option<Seq<char>>, style: Option<Seq<char>>) -> TagModel {
    match class {
        Some(c) => class_tag(name, c, style),
        None => match style {
            Some(s) => if (name == "b"@ || name == "strong"@) && banned_style_of(s) {
                TagModel::Banned
            } else {
                TagModel::Unknown(name)
            },
            None => plain_tag(name),
        },
    }
}

fn text_of(s: &str) -> (r: String)
    ensures
        r@ == s@,
{
    string_of(&chars_of(s))
}

fn class_tag_of(name: &str, class: &str, style: Option<&str>) -> (r: FourChanTag)
    ensures
        r@ == class_tag(name@, class@, match style {
            Some(s) => Some(s@),
            None => None,
        }),
{
    let span = same_text(name, "span");
    if (same_text(name, "a") && same_text(class, "quotelink")) || (span && same_text(
        class,
        "deadlink",
    )) {
        FourChanTag::Link
    } else if same_text(name, "pre") && same_text(class, "prettyprint") {
        FourChanTag::Code
    } else if (same_text(name, "table") && same_text(class, "exif")) || (span && same_text(
        class,
        "abbr",
    )) {
        FourChanTag::Exif
    } else if span && same_text(class, "fortune") {
        FourChanTag::Fortune(
            match style {
                Some(s) => fortune_color(s),
                None => None,
            },
        )
    } else if span && same_text(class, "mu-s") {
        FourChanTag::Bold
    } else if span && same_text(class, "mu-i") {
        FourChanTag::Italic
    } else if span && same_text(class, "mu-r") {
        FourChanTag::QstColor(Color::Red)
    } else if span && same_text(class, "mu-g") {
        FourChanTag::QstColor(Color::Green)
    } else if span && same_text(class, "mu-b") {
        FourChanTag::QstColor(Color::Blue)
    } else if span && same_text(class, "quote") {
        FourChanTag::Quote
    } else if span && same_text(class, "sjis") {
        FourChanTag::ShiftJis
    } else {
        FourChanTag::Unknown(text_of(name))
    }
}

fn plain_tag_of(name: &str) -> (r: FourChanTag)
    ensures
        r@ == plain_tag(name@),
{
    if same_text(name, "a") {
        FourChanTag::Link
    } else if same_text(name, "b") {
        FourChanTag::Bold
    } else if same_text(name, "br") {
        FourChanTag::Break
    } else if same_text(name, "i") {
        FourChanTag::Italic
    } else if same_text(name, "s") {
        FourChanTag::Spoiler
    } else if same_text(name, "sub") {
        FourChanTag::Subscript
    } else if same_text(name, "sup") {
        FourChanTag::Superscript
    } else if same_text(name, "u") {
        FourChanTag::Underline
    } else if same_text(name, "wbr") {
        FourChanTag::Quiet
    } else {
        FourChanTag::Unknown(text_of(name))
    }
}

/// The tag that an element of a comment stands for, from its name, class and style.
pub fn classify_tag(name: &str, class: Option<&str>, style: Option<&str>) -> (r: FourChanTag)
    ensures
        r@ == tag_model(
            name@,
            match class {
                Some(c) => Some(c@),
                None => None,
            },
            match style {
                Some(s) => Some(s@),
                None => None,
            },
        ),
{
    match class {
        Some(c) => class_tag_of(name, c, style),
        None => match style {
            Some(s) => {
                if (same_text(name, "b") || same_text(name, "strong")) && is_banned_style(s) {
                    FourChanTag::Banned
                } else {
                    FourChanTag::Unknown(text_of(name))
                }
            },
            None => plain_tag_of(name),
        },
    }
}

/// The name of a tag in BBCode.
pub open spec fn bbcode_name(t: TagModel) -> Seq<char> {
    match t {
        TagModel::Banned => "banned"@,
        TagModel::Bold => "b"@,
        TagModel::Code => "code"@,
        TagModel::Fortune(_) => "fortune"@,
        TagModel::Italic => "i"@,
        TagModel::QstColor(_) => "qstcolor"@,
        TagModel::ShiftJis => "shiftjis"@,
        TagModel::Spoiler => "spoiler"@,
        TagModel::Subscript => "sub"@,
        TagModel::Superscript => "sup"@,
        _ => "u"@,
    }
}

/// The name of a colour.
pub open spec fn color_name(c: Color) -> Seq<char> {
    match c {
        Color::Red => "red"@,
        Color::Green => "green"@,
        Color::Blue => "blue"@,
    }
}

/// What a tag writes where it opens (`start`) or closes. Links, quotes, exif tables and quiet
/// tags write nothing, a break writes a newline where it opens, an unknown tag closes as HTML
/// (it opens with its attributes, see `open_tag`), and the others write BBCode.
pub open spec fn markup_of(t: TagModel, start: bool) -> Seq<char> {
    match t {
        TagModel::Exif | TagModel::Link | TagModel::Quiet | TagModel::Quote => Seq::empty(),
        TagModel::Break => if start {
            "\n"@
        } else {
            Seq::empty()
        },
        TagModel::Unknown(name) => if start {
            Seq::empty()
        } else {
            "</"@ + name + ">"@
        },
        _ => {
            let attrs = if !start {
                Seq::empty()
            } else {
                match t {
                    TagModel::QstColor(c) => "="@ + color_name(c),
                    TagModel::Fortune(Some(c)) => " color=\"#"@ + c + "\""@,
                    _ => Seq::empty(),
                }
            };
            "["@ + (if start {
                Seq::empty()
            } else {
                "/"@
            }) + bbcode_name(t) + attrs + "]"@
        },
    }
}

fn bbcode_name_of(t: &FourChanTag) -> (r: &'static str)
    requires
        !(t@ is Exif || t@ is Link || t@ is Quiet || t@ is Quote || t@ is Break || t@ is Unknown),
    ensures
        r@ == bbcode_name(t@),
{
    match t {
        FourChanTag::Banned => "banned",
        FourChanTag::Bold => "b",
        FourChanTag::Code => "code",
        FourChanTag::Fortune(_) => "fortune",
        FourChanTag::Italic => "i",
        FourChanTag::QstColor(_) => "qstcolor",
        FourChanTag::ShiftJis => "shiftjis",
        FourChanTag::Spoiler => "spoiler",
        FourChanTag::Subscript => "sub",
        FourChanTag::Superscript => "sup",
        _ => "u",
    }
}

/// What a tag writes where it opens (`start`) or closes.
pub fn tag_markup(tag: &FourChanTag, start: bool) -> (r: String)
    ensures
        r@ == markup_of(tag@, start),
{
    let mut out = string_of(&Vec::new());
    match tag {
        FourChanTag::Exif | FourChanTag::Link | FourChanTag::Quiet | FourChanTag::Quote => {},
        FourChanTag::Break => {
            if start {
                out.append("\n");
            }
        },
        FourChanTag::Unknown(name) => {
            if !start {
                out.append("</");
                out.append(name.as_str());
                out.append(">");
            }
        },
        _ => {
            out.append("[");
            if !start {
                out.append("/");
            }
            out.append(bbcode_name_of(tag));
            if start {
                match tag {
                    FourChanTag::QstColor(c) => {
                        out.append("=");
                        out.append(
                            match c {
                                Color::Red => "red",
                                Color::Green => "green",
                                Color::Blue => "blue",
                            },
                        );
                    },
                    FourChanTag::Fortune(Some(c)) => {
                        out.append(" color=\"#");
                        out.append(c.as_str());
                        out.append("\"");
                    },
                    _ => {},
                }
            }
            out.append("]");
        },
    }
    proof {
        assert(out@ =~= markup_of(tag@, start));
    }
    out
}

/// An attribute value with `&`, no-break spaces and `"` escaped.
pub open spec fn escaped_attribute(s: Seq<char>) -> Seq<char>
    decreases s.len(),
{
    if s.len() == 0 {
        Seq::empty()
    } else {
        let rest = escaped_attribute(s.drop_last());
        let c = s.last();
        if c == '&' {
            rest + seq!['&', 'a', 'm', 'p', ';']
        } else if c == '\u{a0}' {
            rest + seq!['&', 'n', 'b', 's', 'p', ';']
        } else if c == '"' {
            rest + seq!['&', 'q', 'u', 'o', 't', ';']
        } else {
            rest.push(c)
        }
    }
}

fn push_all(v: &mut Vec<char>, s: &Vec<char>)
    ensures
        final(v)@ == old(v)@ + s@,
{
    let mut i: usize = 0;
    while i < s.len()
        invariant
            i <= s@.len(),
            v@ == old(v)@ + s@.take(i as int),
        decreases s@.len() - i,
    {
        v.push(s[i]);
        i = i + 1;
        assert(s@.take(i as int) =~= s@.take(i - 1).push(s@[i - 1]));
    }
    assert(s@.take(i as int) =~= s@);
}

/// Escapes an attribute value of an element that is kept as HTML.
pub fn escape_attribute(value: &str) -> (r: String)
    ensures
        r@ == escaped_attribute(value@),
{
    let v = chars_of(value);
    let mut out: Vec<char> = Vec::new();
    let mut i: usize = 0;
    while i < v.len()
        invariant
            i <= v@.len(),
            v@ == value@,
            out@ == escaped_attribute(v@.take(i as int)),
        decreases v@.len() - i,
    {
        let c = v[i];
        assert(v@.take(i + 1).drop_last() =~= v@.take(i as int));
        if c == '&' {
            push_all(&mut out, &vec!['&', 'a', 'm', 'p', ';']);
        } else if c == '\u{a0}' {
            push_all(&mut out, &vec!['&', 'n', 'b', 's', 'p', ';']);
        } else if c == '"' {
            push_all(&mut out, &vec!['&', 'q', 'u', 'o', 't', ';']);
        } else {
            out.push(c);
        }
        i = i + 1;
    }
    assert(v@.take(i as int) =~= v@);
    string_of(&out)
}

/// The attributes of an opening tag, each as ` name="value"` with the value escaped.
pub open spec fn attributes_text(attrs: Seq<(String, String)>) -> Seq<char>
    decreases attrs.len(),
{
    if attrs.len() == 0 {
        Seq::empty()
    } else {
        attributes_text(attrs.drop_last()) + " "@ + attrs.last().0@ + "=\""@ + escaped_attribute(
            attrs.last().1@,
        ) + "\""@
    }
}

/// The opening tag of an element that is kept as HTML, with its attributes in order.
pub fn open_tag(name: &str, attrs: &Vec<(String, String)>) -> (r: String)
    ensures
        r@ == "<"@ + name@ + attributes_text(attrs@) + ">"@,
{
    let mut out = string_of(&Vec::new());
    out.append("<");
    out.append(name);
    let mut i: usize = 0;
    while i < attrs.len()
        invariant
            i <= attrs@.len(),
            out@ == "<"@ + name@ + attributes_text(attrs@.take(i as int)),
        decreases attrs@.len() - i,
    {
        assert(attrs@.take(i + 1).drop_last() =~= attrs@.take(i as int));
        out.append(" ");
        out.append(attrs[i].0.as_str());
        out.append("=\"");
        let escaped = escape_attribute(attrs[i].1.as_str());
        out.append(escaped.as_str());
        out.append("\"");
        i = i + 1;
        assert(out@ =~= "<"@ + name@ + attributes_text(attrs@.take(i as int)));
    }
    assert(attrs@.take(i as int) =~= attrs@);
    out.append(">");
    out
}

} // verus!
