use vstd::prelude::*;
use vstd::string::StringExecFns;

use crate::error::{Error, RenderError};
use crate::kv::split_once_at;

use colored::Colorize;
use syntect::easy::HighlightLines;
use syntect::highlighting::{Style, Theme, ThemeSet};
use syntect::parsing::{SyntaxReference, SyntaxSet};
use syntect::Error as SyntectFailure;

verus! {

/// What the `mime` crate parses the text as: type, subtype and suffix, and
/// whether parameters follow; `None` where it is not a media type.
pub uninterp spec fn media_type_of(s: Seq<char>) -> Option<(Seq<char>, Seq<char>, Option<Seq<char>>, bool)>;

/// Whether serde_json reads the text as one JSON value.
pub uninterp spec fn json_valid(s: Seq<char>) -> bool;

/// What jsonxf's pretty printer makes of the text.
pub uninterp spec fn pretty_json(s: Seq<char>) -> Seq<char>;

/// A media type as the `mime` crate parses it: type and subtype in lower
/// case, the suffix after `+` if there is one, and whether parameters
/// follow.
pub struct MediaType {
    pub type_: String,
    pub subtype: String,
    pub suffix: Option<String>,
    pub has_params: bool,
}

impl MediaType {
    /// The media type as plain values.
    pub open spec fn model(&self) -> (Seq<char>, Seq<char>, Option<Seq<char>>, bool) {
        (
            self.type_@,
            self.subtype@,
            match self.suffix {
                Some(x) => Some(x@),
                None => None,
            },
            self.has_params,
        )
    }
}

/// Relies on `FromStr for mime::Mime` and its accessors `type_`, `subtype`,
/// `suffix` and `params`: the parts of the media type that the text parses
/// as.
#[verifier::external_body]
fn parse_media_type(header: &str) -> (r: Option<MediaType>)
    ensures
        match r {
            None => media_type_of(header@) is None,
            Some(m) => media_type_of(header@) == Some(m.model()),
        },
{
    match header.parse::<mime::Mime>() {
        Ok(m) => Some(MediaType {
            type_: m.type_().as_str().to_string(),
            subtype: m.subtype().as_str().to_string(),
            suffix: m.suffix().map(|n| n.as_str().to_string()),
            has_params: m.params().next().is_some(),
        }),
        Err(_) => None,
    }
}

/// Exactly `application/json`: no suffix, and no parameters such as a
/// charset.
pub open spec fn is_json_model(t: (Seq<char>, Seq<char>, Option<Seq<char>>, bool)) -> bool {
    t.0 == "application"@ && t.1 == "json"@ && t.2 is None && !t.3
}

impl MediaType {
    /// Whether this is exactly `application/json`, with no suffix and no
    /// parameters.
    pub fn is_application_json(&self) -> (r: bool)
        ensures
            r == is_json_model(self.model()),
    {
        self.type_ == String::from_str("application") && self.subtype == String::from_str("json")
            && self.suffix.is_none() && !self.has_params
    }
}

/// Whether the header text declares a JSON body: it parses as a media type
/// that is exactly `application/json`.
pub fn declares_json(header: &str) -> (r: bool)
    ensures
        r == json_media_type(header@),
{
    match parse_media_type(header) {
        Some(m) => m.is_application_json(),
        None => false,
    }
}

/// Whether the header text parses as exactly `application/json`.
pub open spec fn json_media_type(s: Seq<char>) -> bool {
    match media_type_of(s) {
        Some(t) => is_json_model(t),
        None => false,
    }
}

/// Relies on `serde_json::from_str`: whether the text is one JSON value.
#[verifier::external_body]
fn is_json(s: &str) -> (r: bool)
    ensures
        r == json_valid(s@),
{
    serde_json::from_str::<serde_json::Value>(s).is_ok()
}

/// Relies on `jsonxf::pretty_print`: the text re-indented with two spaces
/// per level; its result depends on the text alone. It formats from a byte
/// slice into a `Vec` and never fails on a `&str`, so the default is never
/// taken.
#[verifier::external_body]
fn pretty_print(s: &str) -> (r: String)
    ensures
        r@ == pretty_json(s@),
{
    jsonxf::pretty_print(s).unwrap_or_default()
}

#[verifier::external_type_specification]
#[verifier::external_body]
pub struct ExSyntaxSet(SyntaxSet);

#[verifier::external_type_specification]
#[verifier::external_body]
pub struct ExSyntaxReference(SyntaxReference);

#[verifier::external_type_specification]
#[verifier::external_body]
pub struct ExTheme(Theme);

#[verifier::external_type_specification]
#[verifier::external_body]
pub struct ExStyle(Style);

#[verifier::external_type_specification]
#[verifier::external_body]
pub struct ExHighlightLines<'a>(HighlightLines<'a>);

#[verifier::external_type_specification]
#[verifier::external_body]
pub struct ExSyntectFailure(SyntectFailure);

/// Relies on `SyntaxSet::load_defaults_newlines`: syntect's bundled grammars.
#[verifier::external_body]
fn default_syntaxes() -> (r: SyntaxSet) {
    SyntaxSet::load_defaults_newlines()
}

/// Relies on `ThemeSet::load_defaults`, taking one theme out of its map:
/// the bundled theme of that name. Its documentation lists
/// `base16-ocean.dark` among the bundled themes.
#[verifier::external_body]
fn default_theme(name: &str) -> (r: Option<Theme>)
    ensures
        name@ == "base16-ocean.dark"@ ==> r is Some,
{
    ThemeSet::load_defaults().themes.remove(name)
}

/// Relies on `SyntaxSet::find_syntax_by_extension`: the grammar for files
/// with that extension, if the set has one.
#[verifier::external_body]
fn syntax_for_extension<'a>(ps: &'a SyntaxSet, ext: &str) -> (r: Option<&'a SyntaxReference>) {
    ps.find_syntax_by_extension(ext)
}

/// Relies on `HighlightLines::new`: a highlighter at the start of a text.
#[verifier::external_body]
fn highlighter<'a>(syntax: &SyntaxReference, theme: &'a Theme) -> (r: HighlightLines<'a>) {
    HighlightLines::new(syntax, theme)
}

/// The texts of styled ranges, one after another.
pub open spec fn range_texts(v: Seq<(Style, &str)>) -> Seq<char>
    decreases v.len(),
{
    if v.len() == 0 {
        Seq::empty()
    } else {
        range_texts(v.drop_last()) + v.last().1@
    }
}

/// One to three decimal digits: a colour channel as a terminal escape
/// writes it.
pub open spec fn decimal(d: Seq<char>) -> bool {
    1 <= d.len() <= 3 && forall|i: int| 0 <= i < d.len() ==> '0' <= #[trigger] d[i] && d[i] <= '9'
}

/// A 24-bit colour escape for the layer `layer` (`48` background, `38`
/// foreground): `ESC [ layer ; 2 ; r ; g ; b m`.
pub open spec fn sgr_24(e: Seq<char>, layer: Seq<char>) -> bool {
    exists|r: Seq<char>, g: Seq<char>, b: Seq<char>|
        decimal(r) && decimal(g) && decimal(b) && e == #[trigger] sgr_24_of(layer, r, g, b)
}

/// The escape `ESC [ layer ; 2 ; r ; g ; b m`.
pub open spec fn sgr_24_of(layer: Seq<char>, r: Seq<char>, g: Seq<char>, b: Seq<char>) -> Seq<char> {
    seq!['\x1b', '['] + layer + seq![';', '2', ';'] + r + seq![';'] + g + seq![';'] + b + seq!['m']
}

/// A 24-bit background escape followed by a 24-bit foreground escape.
pub open spec fn escape_pair(e: Seq<char>) -> bool {
    exists|a: Seq<char>, b: Seq<char>|
        sgr_24(a, seq!['4', '8']) && sgr_24(b, seq!['3', '8']) && e == #[trigger] (a + b)
}

/// The texts of pieces made of escapes and text, one after another.
pub open spec fn piece_texts(p: Seq<(Seq<char>, Seq<char>)>) -> Seq<char>
    decreases p.len(),
{
    if p.len() == 0 {
        Seq::empty()
    } else {
        piece_texts(p.drop_last()) + p.last().1
    }
}

/// Pieces made of escapes and text as a terminal receives them: each one's
/// escapes, then its text.
pub open spec fn piece_output(p: Seq<(Seq<char>, Seq<char>)>) -> Seq<char>
    decreases p.len(),
{
    if p.len() == 0 {
        Seq::empty()
    } else {
        piece_output(p.drop_last()) + p.last().0 + p.last().1
    }
}

/// Every piece starts with a background and a foreground escape.
pub open spec fn pieces_escaped(p: Seq<(Seq<char>, Seq<char>)>) -> bool {
    forall|i: int| 0 <= i < p.len() ==> escape_pair(#[trigger] p[i].0)
}

/// `out` is `text` cut into pieces with colour escapes before each piece.
pub open spec fn styled(text: Seq<char>, out: Seq<char>) -> bool {
    exists|p: Seq<(Seq<char>, Seq<char>)>|
        pieces_escaped(p) && #[trigger] piece_texts(p) == text && piece_output(p) == out
}

proof fn lemma_pieces_append(front: Seq<(Seq<char>, Seq<char>)>, back: Seq<(Seq<char>, Seq<char>)>)
    ensures
        piece_texts(front + back) == piece_texts(front) + piece_texts(back),
        piece_output(front + back) == piece_output(front) + piece_output(back),
    decreases back.len(),
{
    if back.len() == 0 {
        assert(front + back =~= front);
        assert(piece_texts(front) + piece_texts(back) =~= piece_texts(front));
        assert(piece_output(front) + piece_output(back) =~= piece_output(front));
    } else {
        assert((front + back).drop_last() =~= front + back.drop_last());
        assert((front + back).last() == back.last());
        lemma_pieces_append(front, back.drop_last());
        assert(piece_texts(front + back) =~= piece_texts(front) + piece_texts(back));
        assert(piece_output(front + back) =~= piece_output(front) + piece_output(back));
    }
}

/// Styled texts put one after another stay styled.
proof fn lemma_styled_append(t1: Seq<char>, o1: Seq<char>, t2: Seq<char>, o2: Seq<char>)
    requires
        styled(t1, o1),
        styled(t2, o2),
    ensures
        styled(t1 + t2, o1 + o2),
{
    let front = choose|p: Seq<(Seq<char>, Seq<char>)>|
        pieces_escaped(p) && #[trigger] piece_texts(p) == t1 && piece_output(p) == o1;
    let back = choose|p: Seq<(Seq<char>, Seq<char>)>|
        pieces_escaped(p) && #[trigger] piece_texts(p) == t2 && piece_output(p) == o2;
    lemma_pieces_append(front, back);
    let p = front + back;
    assert forall|i: int| 0 <= i < p.len() implies escape_pair(#[trigger] p[i].0) by {
        if i < front.len() {
            assert(p[i] == front[i]);
        } else {
            assert(p[i] == back[i - front.len()]);
        }
    }
    assert(pieces_escaped(p) && piece_texts(p) == t1 + t2 && piece_output(p) == o1 + o2);
}

/// The empty text is styled as nothing.
proof fn lemma_styled_empty()
    ensures
        styled(Seq::empty(), Seq::empty()),
{
    let p = Seq::<(Seq<char>, Seq<char>)>::empty();
    assert(pieces_escaped(p) && piece_texts(p) == Seq::<char>::empty() && piece_output(p)
        == Seq::<char>::empty());
}

/// Relies on `HighlightLines::highlight_line`: the styled ranges of the next
/// line of the text, whose texts make up the line.
#[verifier::external_body]
fn highlight_line<'a, 'b>(
    h: &mut HighlightLines<'a>,
    line: &'b str,
    ps: &SyntaxSet,
) -> (r: Result<Vec<(Style, &'b str)>, SyntectFailure>)
    ensures
        r is Ok ==> range_texts(r->Ok_0@) == line@,
{
    h.highlight_line(line, ps)
}

/// Relies on `syntect::util::as_24_bit_terminal_escaped`, with backgrounds:
/// for each range, a background and a foreground colour escape, then its
/// text.
#[verifier::external_body]
fn terminal_escaped(ranges: &Vec<(Style, &str)>) -> (r: String)
    ensures
        styled(range_texts(ranges@), r@),
{
    syntect::util::as_24_bit_terminal_escaped(&ranges[..], true)
}

/// The strings of `s`, one after another.
pub open spec fn concat_all(s: Seq<String>) -> Seq<char>
    decreases s.len(),
{
    if s.len() == 0 {
        Seq::empty()
    } else {
        concat_all(s.drop_last()) + s.last()@
    }
}

/// `lines` is `s` cut after each line feed: every piece is non-empty and
/// holds a line feed at its end at most, and every piece but the last ends
/// with one.
pub open spec fn is_line_split(s: Seq<char>, lines: Seq<String>) -> bool {
    &&& concat_all(lines) == s
    &&& forall|i: int| 0 <= i < lines.len() ==> lines[i]@.len() > 0
    &&& forall|i: int| 0 <= i < lines.len() ==> !lines[i]@.drop_last().contains('\n')
    &&& forall|i: int| 0 <= i < lines.len() - 1 ==> lines[i]@.last() == '\n'
}

/// Cuts `s` after each line feed, keeping the line feeds.
pub fn lines_with_endings(s: &str) -> (r: Vec<String>)
    ensures
        is_line_split(s@, r@),
{
    let mut out: Vec<String> = Vec::new();
    let mut rest: String = s.to_owned();
    while !rest.as_str().is_empty()
        invariant
            concat_all(out@) + rest@ == s@,
            forall|i: int| 0 <= i < out@.len() ==> out@[i]@.len() > 0,
            forall|i: int| 0 <= i < out@.len() ==> !out@[i]@.drop_last().contains('\n'),
            forall|i: int| 0 <= i < out@.len() - 1 ==> out@[i]@.last() == '\n',
            rest@.len() > 0 ==> forall|i: int| 0 <= i < out@.len() ==> out@[i]@.last() == '\n',
        decreases rest@.len(),
    {
        match split_once_at(rest.as_str(), '\n') {
            Some((line, after)) => {
                let mut line = line;
                let ghost before = line@;
                line.append("\n");
                proof {
                    reveal_strlit("\n");
                    assert(line@ == before + seq!['\n']);
                    assert(line@.drop_last() =~= before);
                }
                let ghost prev = out@;
                out.push(line);
                assert(out@.drop_last() =~= prev);
                assert(concat_all(out@) + after@ =~= concat_all(prev) + rest@);
                rest = after;
            },
            None => {
                let ghost prev = out@;
                let last = rest;
                rest = String::new();
                out.push(last);
                assert(out@.drop_last() =~= prev);
                assert(concat_all(out@) + rest@ =~= s@);
            },
        }
    }
    assert(rest@.len() == 0);
    assert(concat_all(out@) =~= s@);
    out
}

/// Highlights JSON text for a 24-bit colour terminal, line by line, with
/// syntect's JSON grammar and its "base16-ocean.dark" theme. Without its
/// colour escapes the result is the text.
pub fn highlight_json(text: &str) -> (r: Result<String, RenderError>)
    ensures
        match r {
            Ok(o) => styled(text@, o@),
            Err(e) => e == RenderError::Highlight,
        },
{
    let ps = default_syntaxes();
    let syntax = match syntax_for_extension(&ps, "json") {
        Some(x) => x,
        None => return Err(RenderError::Highlight),
    };
    let theme = match default_theme("base16-ocean.dark") {
        Some(t) => t,
        None => return Err(RenderError::Highlight),
    };
    let mut h = highlighter(syntax, &theme);
    let lines = lines_with_endings(text);
    let mut out = String::new();
    let mut i: usize = 0;
    proof {
        lemma_styled_empty();
        assert(concat_all(lines@.take(0)) =~= Seq::<char>::empty());
    }
    while i < lines.len()
        invariant
            i <= lines.len(),
            styled(concat_all(lines@.take(i as int)), out@),
        decreases lines.len() - i,
    {
        let ranges = match highlight_line(&mut h, lines[i].as_str(), &ps) {
            Ok(v) => v,
            Err(_) => return Err(RenderError::Highlight),
        };
        let escaped = terminal_escaped(&ranges);
        let ghost before = out@;
        out.append(escaped.as_str());
        proof {
            lemma_styled_append(concat_all(lines@.take(i as int)), before, lines@[i as int]@, escaped@);
            assert(lines@.take(i + 1).drop_last() =~= lines@.take(i as int));
        }
        i = i + 1;
    }
    proof {
        assert(lines@.take(i as int) =~= lines@);
    }
    Ok(out)
}

/// Whether `s` holds the terminal's reset sequence `ESC [ 0 m`.
pub open spec fn holds_reset(s: Seq<char>) -> bool {
    exists|i: int| 0 <= i && i + 4 <= s.len() && #[trigger] s.subrange(i, i + 4) == seq!['\x1b', '[', '0', 'm']
}

/// `s` between the escape that selects the foreground colour `code` and the
/// reset sequence.
pub open spec fn ansi_wrap(code: Seq<char>, s: Seq<char>) -> Seq<char> {
    seq!['\x1b', '['] + code + seq!['m'] + s + seq!['\x1b', '[', '0', 'm']
}

/// What a terminal painter may make of `s` in colour `code`: `s` itself where
/// colours are off, else `s` wrapped in that colour; where `s` already holds
/// a reset sequence, anything.
pub open spec fn painted(s: Seq<char>, code: Seq<char>, r: Seq<char>) -> bool {
    holds_reset(s) || r == s || r == ansi_wrap(code, s)
}

/// The foreground code of blue.
pub open spec fn blue_code() -> Seq<char> {
    seq!['3', '4']
}

/// The foreground code of green.
pub open spec fn green_code() -> Seq<char> {
    seq!['3', '2']
}

/// Relies on colored's `Colorize::blue` and its `Display`: the text in blue,
/// or unchanged where the process has colours off.
#[verifier::external_body]
fn paint_blue(s: &str) -> (r: String)
    ensures
        painted(s@, blue_code(), r@),
{
    s.blue().to_string()
}

/// Relies on colored's `Colorize::green` and its `Display`: the text in green,
/// or unchanged where the process has colours off.
#[verifier::external_body]
fn paint_green(s: &str) -> (r: String)
    ensures
        painted(s@, green_code(), r@),
{
    s.green().to_string()
}

/// Whether the `Content-Type` header, if present, declares a JSON body.
pub open spec fn declares_json_body(content_type: Option<Seq<char>>) -> bool {
    content_type is Some && json_media_type(content_type->Some_0)
}

/// The view of an optional header text.
pub open spec fn opt_view(s: Option<&str>) -> Option<Seq<char>> {
    match s {
        Some(t) => Some(t@),
        None => None,
    }
}

/// The body as it is shown, once it is known whether the content type
/// declares JSON. A JSON body must be JSON; it is pretty-printed and
/// highlighted. Any other body is shown as it is. Either ends with a line
/// feed.
pub fn render_body_as(json: bool, body: &str) -> (r: Result<String, Error>)
    ensures
        !json ==> r is Ok && r->Ok_0@ == body@ + seq!['\n'],
        json && !json_valid(body@) ==> r == Err::<String, Error>(
            Error::Render(RenderError::InvalidJson),
        ),
        json && json_valid(body@) ==> match r {
            Ok(o) => exists|h: Seq<char>|
                styled(pretty_json(body@), h) && o@ == h + seq!['\n'],
            Err(e) => e == Error::Render(RenderError::Highlight),
        },
{
    if !json {
        let mut out = body.to_owned();
        out.append("\n");
        proof {
            reveal_strlit("\n");
        }
        return Ok(out);
    }
    if !is_json(body) {
        return Err(Error::Render(RenderError::InvalidJson));
    }
    let pretty = pretty_print(body);
    match highlight_json(pretty.as_str()) {
        Ok(h) => {
            let mut out = h;
            let ghost hv = out@;
            out.append("\n");
            proof {
                reveal_strlit("\n");
                assert(styled(pretty_json(body@), hv) && out@ == hv + seq!['\n']);
            }
            Ok(out)
        },
        Err(e) => Err(Error::Render(e)),
    }
}

/// The body as it is shown, given the `Content-Type` header if there is
/// one: as `render_body_as` shows it, as JSON exactly where the header is
/// `application/json` without parameters.
pub fn render_body(content_type: Option<&str>, body: &str) -> (r: Result<String, Error>)
    ensures
        !declares_json_body(opt_view(content_type)) ==> r is Ok && r->Ok_0@ == body@ + seq!['\n'],
        declares_json_body(opt_view(content_type)) && !json_valid(body@) ==> r == Err::<String, Error>(
            Error::Render(RenderError::InvalidJson),
        ),
        declares_json_body(opt_view(content_type)) && json_valid(body@) ==> match r {
            Ok(o) => exists|h: Seq<char>|
                styled(pretty_json(body@), h) && o@ == h + seq!['\n'],
            Err(e) => e == Error::Render(RenderError::Highlight),
        },
{
    let json = match content_type {
        Some(ct) => declares_json(ct),
        None => false,
    };
    render_body_as(json, body)
}

/// `r` shows the status line `line`: painted blue, then an empty line.
pub open spec fn status_shown(line: Seq<char>, r: Seq<char>) -> bool {
    &&& r.len() >= 2
    &&& r.skip(r.len() - 2) == seq!['\n', '\n']
    &&& painted(line, blue_code(), r.take(r.len() - 2))
}

/// `r` shows the headers: each name painted green, then `: ` and the value,
/// one header per line in the order given; then an empty line.
pub open spec fn headers_shown(headers: Seq<(String, String)>, r: Seq<char>) -> bool {
    exists|names: Seq<String>|
        names.len() == headers.len() && (forall|i: int|
            0 <= i < headers.len() ==> painted(headers[i].0@, green_code(), names[i]@)) && r
            == #[trigger] header_block(names, header_values(headers))
}

/// The status line as it is shown: painted blue, then an empty line.
pub fn render_status(line: &str) -> (r: String)
    ensures
        status_shown(line@, r@),
{
    let mut out = paint_blue(line);
    let ghost p = out@;
    out.append("\n\n");
    proof {
        reveal_strlit("\n\n");
        assert(out@.skip(out@.len() - 2) =~= seq!['\n', '\n']);
        assert(out@.take(out@.len() - 2) =~= p);
    }
    out
}

/// The header lines `name: value`, one per header in the order given, from
/// names that are already painted; then an empty line.
pub open spec fn header_block(names: Seq<String>, values: Seq<String>) -> Seq<char>
    decreases names.len(),
{
    if names.len() == 0 || values.len() != names.len() {
        seq!['\n']
    } else {
        header_block(names.drop_last(), values.drop_last()).drop_last() + names.last()@ + seq![
            ':',
            ' ',
        ] + values.last()@ + seq!['\n', '\n']
    }
}

/// The values of the headers, in order.
pub open spec fn header_values(headers: Seq<(String, String)>) -> Seq<String> {
    headers.map_values(|h: (String, String)| h.1)
}

/// Lays out the header lines from names that are already painted.
pub fn header_lines(names: &Vec<String>, values: &Vec<String>) -> (r: String)
    requires
        names.len() == values.len(),
    ensures
        r@ == header_block(names@, values@),
{
    let mut out = String::new();
    let mut i: usize = 0;
    proof {
        reveal_strlit("\n");
        reveal_strlit(": ");
        assert(header_block(names@.take(0), values@.take(0)) == seq!['\n']);
    }
    while i < names.len()
        invariant
            i <= names.len(),
            names.len() == values.len(),
            out@ + seq!['\n'] == header_block(names@.take(i as int), values@.take(i as int)),
        decreases names.len() - i,
    {
        let ghost before = out@;
        out.append(names[i].as_str());
        out.append(": ");
        out.append(values[i].as_str());
        out.append("\n");
        proof {
            reveal_strlit("\n");
            reveal_strlit(": ");
            let names_next = names@.take(i + 1);
            let values_next = values@.take(i + 1);
            assert(names_next.drop_last() =~= names@.take(i as int));
            assert(values_next.drop_last() =~= values@.take(i as int));
            assert((before + seq!['\n']).drop_last() =~= before);
            assert(out@ + seq!['\n'] =~= header_block(names_next, values_next));
        }
        i = i + 1;
    }
    proof {
        assert(names@.take(i as int) =~= names@);
        assert(values@.take(i as int) =~= values@);
    }
    out.append("\n");
    proof {
        reveal_strlit("\n");
    }
    out
}

/// The headers as they are shown: each name painted green, then `: ` and the
/// value, one header per line in the order given; then an empty line.
pub fn render_headers(headers: &Vec<(String, String)>) -> (r: String)
    ensures
        headers_shown(headers@, r@),
{
    let mut names: Vec<String> = Vec::new();
    let mut values: Vec<String> = Vec::new();
    let mut i: usize = 0;
    while i < headers.len()
        invariant
            i <= headers.len(),
            names.len() == i,
            values@ == header_values(headers@.take(i as int)),
            forall|j: int| 0 <= j < i ==> painted(headers@[j].0@, green_code(), names@[j]@),
        decreases headers.len() - i,
    {
        names.push(paint_green(headers[i].0.as_str()));
        values.push(headers[i].1.clone());
        assert(values@ =~= header_values(headers@.take(i + 1)));
        i = i + 1;
    }
    assert(headers@.take(i as int) =~= headers@);
    let r = header_lines(&names, &values);
    assert(r@ == header_block(names@, header_values(headers@)));
    r
}

/// The whole response as it is shown: the status line and the headers,
/// which are shown whatever becomes of the body, and the body as
/// `render_body` shows it.
pub fn render_response(
    status: &str,
    headers: &Vec<(String, String)>,
    content_type: Option<&str>,
    body: &str,
) -> (r: (String, Result<String, Error>))
    ensures
        exists|st: Seq<char>, hd: Seq<char>|
            #![trigger status_shown(status@, st), headers_shown(headers@, hd)]
            status_shown(status@, st) && headers_shown(headers@, hd) && r.0@ == st + hd,
        !declares_json_body(opt_view(content_type)) ==> r.1 is Ok && r.1->Ok_0@ == body@ + seq!['\n'],
        declares_json_body(opt_view(content_type)) && !json_valid(body@) ==> r.1 == Err::<String, Error>(
            Error::Render(RenderError::InvalidJson),
        ),
        declares_json_body(opt_view(content_type)) && json_valid(body@) ==> match r.1 {
            Ok(o) => exists|h: Seq<char>|
                styled(pretty_json(body@), h) && o@ == h + seq!['\n'],
            Err(e) => e == Error::Render(RenderError::Highlight),
        },
{
    let mut head = render_status(status);
    let hd = render_headers(headers);
    let ghost st = head@;
    head.append(hd.as_str());
    assert(status_shown(status@, st) && headers_shown(headers@, hd@) && head@ == st + hd@);
    (head, render_body(content_type, body))
}

} // verus!
