//! Mathematical model of the ANSI renderer: tokenizing a character stream
//! into text blocks and escape sequences, the SGR style state, and the
//! rendering of styled markup fragments.
//!
//! The grammar recognised here: an escape sequence is ESC `[`, a run of
//! decimal digits and `;`, and one final byte.  A final byte `m` selects
//! graphic rendition from the numeric parameters; `2J` erases the rendered
//! output; every other sequence is a no-op.  A sequence left unfinished at
//! the end of the input is dropped, as is an ESC that does not open a
//! sequence.  Text between sequences becomes styled fragments, with each
//! CR+LF pair replaced by one line-break fragment.

use vstd::prelude::*;
use crate::text::join_parts;

verus! {

/// The escape character that opens an ANSI sequence.
pub const ESC_CHAR: char = '\u{1b}';

/// The graphic-rendition state: active attributes and colors.
#[verifier::ext_equal]
pub struct StyleSpec {
    pub bold: bool,
    pub light: bool,
    pub italic: bool,
    pub underline: bool,
    pub blink: bool,
    pub reversed: bool,
    pub hidden: bool,
    pub strike: bool,
    pub normal: bool,
    /// The active foreground declaration, empty for the default.
    pub fg: Seq<char>,
    /// The active background declaration, empty for the default.
    pub bg: Seq<char>,
}

/// One token of the input stream.
#[verifier::ext_equal]
pub enum AnsiToken {
    /// A run of characters with no escape in it.
    Text(Seq<char>),
    /// A select-graphic-rendition sequence with its numeric parameters.
    Sgr(Seq<u8>),
    /// An erase-display sequence.
    Erase,
}

/// All attributes off, default colors.
pub open spec fn default_style() -> StyleSpec {
    StyleSpec {
        bold: false,
        light: false,
        italic: false,
        underline: false,
        blink: false,
        reversed: false,
        hidden: false,
        strike: false,
        normal: false,
        fg: Seq::empty(),
        bg: Seq::empty(),
    }
}

/// One SGR parameter applied to the style state, per the standard SGR table;
/// unrecognized parameters change nothing.
pub open spec fn apply_sgr(st: StyleSpec, p: u8) -> StyleSpec {
    match p {
        0 => default_style(),
        1 => StyleSpec { bold: true, ..st },
        2 => StyleSpec { light: true, ..st },
        3 => StyleSpec { italic: true, ..st },
        4 => StyleSpec { underline: true, ..st },
        5 => StyleSpec { blink: true, ..st },
        7 => StyleSpec { reversed: true, ..st },
        8 => StyleSpec { hidden: true, ..st },
        9 => StyleSpec { strike: true, ..st },
        22 => StyleSpec { normal: true, ..st },
        23 => StyleSpec { italic: false, ..st },
        24 => StyleSpec { underline: false, ..st },
        25 => StyleSpec { blink: false, ..st },
        27 => StyleSpec { reversed: false, ..st },
        28 => StyleSpec { hidden: false, ..st },
        29 => StyleSpec { strike: false, ..st },
        30 => StyleSpec { fg: "color:rgb(  1,  1,  1);"@, ..st },
        31 => StyleSpec { fg: "color:rgb(222, 56, 43);"@, ..st },
        32 => StyleSpec { fg: "color:rgb( 57,181, 74);"@, ..st },
        33 => StyleSpec { fg: "color:rgb(255,199,  6);"@, ..st },
        34 => StyleSpec { fg: "color:rgb(  0,111,184);"@, ..st },
        35 => StyleSpec { fg: "color:rgb(118, 38,113);"@, ..st },
        36 => StyleSpec { fg: "color:rgb( 44,181,233);"@, ..st },
        37 => StyleSpec { fg: "color:rgb(204,204,204);"@, ..st },
        40 => StyleSpec { bg: "background-color:rgb(  1,  1,  1);"@, ..st },
        41 => StyleSpec { bg: "background-color:rgb(222, 56, 43);"@, ..st },
        42 => StyleSpec { bg: "background-color:rgb( 57,181, 74);"@, ..st },
        43 => StyleSpec { bg: "background-color:rgb(255,199,  6);"@, ..st },
        44 => StyleSpec { bg: "background-color:rgb(  0,111,184);"@, ..st },
        45 => StyleSpec { bg: "background-color:rgb(118, 38,113);"@, ..st },
        46 => StyleSpec { bg: "background-color:rgb( 44,181,233);"@, ..st },
        47 => StyleSpec { bg: "background-color:rgb(204,204,204);"@, ..st },
        90 => StyleSpec { fg: "color:rgb(128,128,128);"@, ..st },
        91 => StyleSpec { fg: "color:rgb(255,  0,  0);"@, ..st },
        92 => StyleSpec { fg: "color:rgb(  0,255,  0);"@, ..st },
        93 => StyleSpec { fg: "color:rgb(  0,255,  0);"@, ..st },
        94 => StyleSpec { fg: "color:rgb(  0,  0,255);"@, ..st },
        95 => StyleSpec { fg: "color:rgb(255,  0,255);"@, ..st },
        96 => StyleSpec { fg: "color:rgb(  0,255,255);"@, ..st },
        97 => StyleSpec { fg: "color:rgb(255,255,255);"@, ..st },
        100 => StyleSpec { bg: "background-color:rgb(128,128,128);"@, ..st },
        101 => StyleSpec { bg: "background-color:rgb(255,  0,  0);"@, ..st },
        102 => StyleSpec { bg: "background-color:rgb(  0,255,  0);"@, ..st },
        103 => StyleSpec { bg: "background-color:rgb(  0,255,  0);"@, ..st },
        104 => StyleSpec { bg: "background-color:rgb(  0,  0,255);"@, ..st },
        105 => StyleSpec { bg: "background-color:rgb(255,  0,255);"@, ..st },
        106 => StyleSpec { bg: "background-color:rgb(  0,255,255);"@, ..st },
        107 => StyleSpec { bg: "background-color:rgb(255,255,255);"@, ..st },
        _ => st,
    }
}

/// A whole parameter list applied left to right.
pub open spec fn apply_sgrs(st: StyleSpec, ps: Seq<u8>) -> StyleSpec
    decreases ps.len(),
{
    if ps.len() == 0 {
        st
    } else {
        apply_sgr(apply_sgrs(st, ps.drop_last()), ps.last())
    }
}

/// The style pieces that are written out, in their fixed order.
pub open spec fn style_parts(st: StyleSpec) -> Seq<Seq<char>> {
    (if st.bold {
        seq!["font-weight:bold;"@]
    } else {
        Seq::<Seq<char>>::empty()
    }) + (if st.light {
        seq!["font-weight:light;"@]
    } else {
        Seq::<Seq<char>>::empty()
    }) + (if st.italic {
        seq!["font-style:italic;"@]
    } else {
        Seq::<Seq<char>>::empty()
    }) + (if st.underline {
        seq!["text-decoration:underline;"@]
    } else {
        Seq::<Seq<char>>::empty()
    }) + (if st.fg.len() > 0 {
        seq![st.fg]
    } else {
        Seq::<Seq<char>>::empty()
    }) + (if st.bg.len() > 0 {
        seq![st.bg]
    } else {
        Seq::<Seq<char>>::empty()
    })
}

/// The style declaration written into a fragment: the active pieces,
/// space-joined.
pub open spec fn style_decl(st: StyleSpec) -> Seq<char> {
    join_parts(style_parts(st), " "@)
}

/// The markup written for one line break.
pub open spec fn break_marker() -> Seq<char> {
    "<div style=\"flex-basis:100%;height:0;\"></div>"@
}

/// The markup fragment wrapping `t` in the current style.
pub open spec fn fragment(st: StyleSpec, t: Seq<char>) -> Seq<char> {
    "<div style=\""@ + style_decl(st) + "\">"@ + t + "</div>"@
}

/// A fragment for a non-empty text, nothing for an empty one.
pub open spec fn maybe_fragment(st: StyleSpec, t: Seq<char>) -> Seq<char> {
    if t.len() == 0 {
        Seq::empty()
    } else {
        fragment(st, t)
    }
}

/// Index of the first CR+LF pair of `t`; at least `t.len() - 1` when there
/// is none.
pub open spec fn first_crlf(t: Seq<char>) -> int
    decreases t.len(),
{
    if t.len() < 2 {
        t.len() as int
    } else if t[0] == '\r' && t[1] == '\n' {
        0
    } else {
        1 + first_crlf(t.drop_first())
    }
}

/// No CR+LF pair anywhere in `t`.
pub open spec fn no_crlf(t: Seq<char>) -> bool {
    forall|i: int| 0 <= i && i + 1 < t.len() ==> !(#[trigger] t[i] == '\r' && t[i + 1] == '\n')
}

/// The markup for one text block: fragments for the runs between CR+LF
/// pairs, one break marker per pair, empty runs contributing nothing.
pub open spec fn render_text(st: StyleSpec, t: Seq<char>) -> Seq<char>
    decreases t.len(),
{
    let c = first_crlf(t);
    if 0 <= c && c + 2 <= t.len() {
        maybe_fragment(st, t.take(c)) + break_marker() + render_text(st, t.skip(c + 2))
    } else {
        maybe_fragment(st, t)
    }
}

/// Is `c` a decimal digit?
pub open spec fn is_digit(c: char) -> bool {
    48 <= c as int && c as int <= 57
}

/// May `c` stand in the parameter part of an escape sequence?
pub open spec fn is_param_char(c: char) -> bool {
    c as int == 59 || is_digit(c)
}

/// Value of a run of digit characters, saturated at 255.
pub open spec fn seg_val(d: Seq<char>) -> u8
    decreases d.len(),
{
    if d.len() == 0 {
        0
    } else {
        let prev = seg_val(d.drop_last());
        let dig = d.last() as int - 48;
        if prev as int * 10 + dig > 255 {
            255
        } else {
            (prev as int * 10 + dig) as u8
        }
    }
}

/// Length of the run of digits at the front of `p`.
pub open spec fn seg_run(p: Seq<char>) -> int
    decreases p.len(),
{
    if p.len() == 0 {
        0
    } else if is_digit(p[0]) {
        1 + seg_run(p.drop_first())
    } else {
        0
    }
}

/// The numeric parameters of an escape sequence: `;`-separated digit runs,
/// an empty run before a separator counting as 0, nothing at all for an
/// empty parameter part.
pub open spec fn parse_params(p: Seq<char>) -> Seq<u8>
    decreases p.len(),
{
    if p.len() == 0 {
        Seq::empty()
    } else {
        let r = seg_run(p);
        if 0 <= r && r < p.len() {
            seq![seg_val(p.take(r))] + parse_params(p.skip(r + 1))
        } else {
            seq![seg_val(p)]
        }
    }
}

/// Length of the run of characters at the front of `s` up to the first
/// escape character.
pub open spec fn text_run(s: Seq<char>) -> int
    decreases s.len(),
{
    if s.len() == 0 {
        0
    } else if s[0] == ESC_CHAR {
        0
    } else {
        1 + text_run(s.drop_first())
    }
}

/// Length of the run of parameter characters at the front of `s`.
pub open spec fn param_run(s: Seq<char>) -> int
    decreases s.len(),
{
    if s.len() == 0 {
        0
    } else if is_param_char(s[0]) {
        1 + param_run(s.drop_first())
    } else {
        0
    }
}

/// The token stream of a character sequence.
pub open spec fn tokenize(s: Seq<char>) -> Seq<AnsiToken>
    decreases s.len(),
{
    if s.len() == 0 {
        Seq::empty()
    } else if s[0] != ESC_CHAR {
        let j = text_run(s);
        if 1 <= j && j <= s.len() {
            seq![AnsiToken::Text(s.take(j))] + tokenize(s.skip(j))
        } else {
            Seq::empty()
        }
    } else if s.len() >= 2 && s[1] == '[' {
        let pr = param_run(s.skip(2));
        if 0 <= pr && 2 + pr < s.len() {
            let fin = s[2 + pr];
            let params = s.subrange(2, 2 + pr);
            let rest = tokenize(s.skip(2 + pr + 1));
            if fin == 'm' {
                seq![AnsiToken::Sgr(parse_params(params))] + rest
            } else if fin == 'J' && params == seq!['2'] {
                seq![AnsiToken::Erase] + rest
            } else {
                rest
            }
        } else {
            Seq::empty()
        }
    } else {
        tokenize(s.skip(1))
    }
}

/// The style after one token.
pub open spec fn style_after(st: StyleSpec, tok: AnsiToken) -> StyleSpec {
    match tok {
        AnsiToken::Sgr(ps) => apply_sgrs(st, ps),
        _ => st,
    }
}

/// The accumulated markup after one token: text appends its fragments,
/// erase-display discards everything rendered so far.
pub open spec fn out_after(st: StyleSpec, out: Seq<char>, tok: AnsiToken) -> Seq<char> {
    match tok {
        AnsiToken::Text(t) => out + render_text(st, t),
        AnsiToken::Sgr(_) => out,
        AnsiToken::Erase => Seq::empty(),
    }
}

/// The markup left after folding the remaining tokens over the state.
pub open spec fn render_from(st: StyleSpec, out: Seq<char>, toks: Seq<AnsiToken>) -> Seq<char>
    decreases toks.len(),
{
    if toks.len() == 0 {
        out
    } else {
        render_from(style_after(st, toks[0]), out_after(st, out, toks[0]), toks.drop_first())
    }
}

/// The ANSI rendering of a character stream, starting from a fresh style.
pub open spec fn ansi_render(s: Seq<char>) -> Seq<char> {
    render_from(default_style(), Seq::empty(), tokenize(s))
}

/// `first_crlf` lies in `[0, t.len()]`.
pub proof fn lemma_first_crlf_bounds(t: Seq<char>)
    ensures
        0 <= first_crlf(t) <= t.len(),
    decreases t.len(),
{
    if t.len() >= 2 && !(t[0] == '\r' && t[1] == '\n') {
        lemma_first_crlf_bounds(t.drop_first());
    }
}

/// The first CR+LF pair of `t` stands at `k` exactly when there is a pair at
/// `k` and none before it.
pub proof fn lemma_first_crlf_at(t: Seq<char>, k: int)
    requires
        0 <= k,
        k + 2 <= t.len(),
        t[k] == '\r' && t[k + 1] == '\n',
        forall|j: int| 0 <= j < k ==> !(#[trigger] t[j] == '\r' && t[j + 1] == '\n'),
    ensures
        first_crlf(t) == k,
    decreases t.len(),
{
    if k > 0 {
        let t2 = t.drop_first();
        assert forall|j: int| 0 <= j < k - 1 implies !(#[trigger] t2[j] == '\r' && t2[j + 1]
            == '\n') by {
            assert(t2[j] == t[j + 1]);
            assert(t2[j + 1] == t[j + 2]);
        }
        assert(t2[k - 1] == t[k]);
        assert(t2[k] == t[k + 1]);
        lemma_first_crlf_at(t2, k - 1);
    }
}

/// Without a CR+LF pair, `first_crlf` runs off the end.
pub proof fn lemma_first_crlf_none(t: Seq<char>)
    requires
        no_crlf(t),
    ensures
        first_crlf(t) + 2 > t.len(),
    decreases t.len(),
{
    if t.len() >= 2 {
        let t2 = t.drop_first();
        assert forall|j: int| 0 <= j && j + 1 < t2.len() implies !(#[trigger] t2[j] == '\r' && t2[j
            + 1] == '\n') by {
            assert(t2[j] == t[j + 1]);
            assert(t2[j + 1] == t[j + 2]);
        }
        lemma_first_crlf_none(t2);
    }
}

/// The run of non-escape characters at the front of `s` has length `k`
/// exactly when the first `k` characters are no escapes and the stream ends
/// or an escape follows.
pub proof fn lemma_text_run_at(s: Seq<char>, k: int)
    requires
        0 <= k <= s.len(),
        forall|j: int| 0 <= j < k ==> s[j] != ESC_CHAR,
        k == s.len() || s[k] == ESC_CHAR,
    ensures
        text_run(s) == k,
    decreases s.len(),
{
    if k > 0 {
        let s2 = s.drop_first();
        assert forall|j: int| 0 <= j < k - 1 implies s2[j] != ESC_CHAR by {
            assert(s2[j] == s[j + 1]);
        }
        if k < s.len() {
            assert(s2[k - 1] == s[k]);
        }
        lemma_text_run_at(s2, k - 1);
    }
}

/// The same characterization for the run of parameter characters.
pub proof fn lemma_param_run_at(s: Seq<char>, k: int)
    requires
        0 <= k <= s.len(),
        forall|j: int| 0 <= j < k ==> is_param_char(s[j]),
        k == s.len() || !is_param_char(s[k]),
    ensures
        param_run(s) == k,
    decreases s.len(),
{
    if k > 0 {
        let s2 = s.drop_first();
        assert forall|j: int| 0 <= j < k - 1 implies is_param_char(s2[j]) by {
            assert(s2[j] == s[j + 1]);
        }
        if k < s.len() {
            assert(s2[k - 1] == s[k]);
        }
        lemma_param_run_at(s2, k - 1);
    }
}

/// The same characterization for the run of digits.
pub proof fn lemma_seg_run_at(s: Seq<char>, k: int)
    requires
        0 <= k <= s.len(),
        forall|j: int| 0 <= j < k ==> is_digit(s[j]),
        k == s.len() || !is_digit(s[k]),
    ensures
        seg_run(s) == k,
    decreases s.len(),
{
    if k > 0 {
        let s2 = s.drop_first();
        assert forall|j: int| 0 <= j < k - 1 implies is_digit(s2[j]) by {
            assert(s2[j] == s[j + 1]);
        }
        if k < s.len() {
            assert(s2[k - 1] == s[k]);
        }
        lemma_seg_run_at(s2, k - 1);
    }
}

/// Law: a CR+LF pair inside a text block is replaced by exactly one
/// line-break fragment, and the surrounding text is split into its own
/// fragments around it.
pub proof fn lemma_crlf_splits_text(st: StyleSpec, a: Seq<char>, b: Seq<char>)
    requires
        no_crlf(a),
        no_crlf(b),
    ensures
        render_text(st, a + seq!['\r', '\n'] + b) == maybe_fragment(st, a) + break_marker()
            + maybe_fragment(st, b),
{
    let t = a + seq!['\r', '\n'] + b;
    assert(t[a.len() as int] == '\r');
    assert(t[a.len() as int + 1] == '\n');
    assert forall|j: int| 0 <= j < a.len() implies !(#[trigger] t[j] == '\r' && t[j + 1] == '\n') by {
        assert(t[j] == a[j]);
        if j + 1 < a.len() {
            assert(t[j + 1] == a[j + 1]);
        } else {
            assert(t[j + 1] == '\r');
        }
    }
    lemma_first_crlf_at(t, a.len() as int);
    assert(t.take(a.len() as int) =~= a);
    assert(t.skip(a.len() as int + 2) =~= b);
    lemma_first_crlf_none(b);
    lemma_first_crlf_bounds(b);
    assert(render_text(st, b) == maybe_fragment(st, b));
}

} // verus!
