//! The ANSI renderer: a byte stream, escape sequences included, turned into
//! styled markup fragments.  Each call starts from a fresh style state; in
//! ANSI display mode the session therefore re-renders the whole buffer, so
//! that styles opened in an earlier chunk are replayed.

use vstd::prelude::*;
use crate::ansi_spec::{
    ansi_render, apply_sgr, apply_sgrs, break_marker, default_style, fragment, is_digit,
    is_param_char, lemma_first_crlf_at, lemma_first_crlf_none, lemma_param_run_at,
    lemma_seg_run_at, lemma_text_run_at, maybe_fragment, no_crlf, out_after, parse_params,
    render_from, render_text, seg_val, style_after, style_decl, style_parts, tokenize, AnsiToken,
    StyleSpec, ESC_CHAR,
};
use crate::text::{join_parts, lemma_join_step, lossy_of, lossy_utf8};

verus! {

/// The currently-active text attributes while rendering one byte stream.
pub struct ActiveStyles {
    pub font_bold: bool,
    pub font_light: bool,
    pub italic: bool,
    pub underline: bool,
    pub blink: bool,
    pub reversed: bool,
    pub hidden: bool,
    pub line_through: bool,
    pub font_normal: bool,
    /// The active foreground declaration, empty for the default.
    pub text: String,
    /// The active background declaration, empty for the default.
    pub bg: String,
}

impl View for ActiveStyles {
    type V = StyleSpec;

    open spec fn view(&self) -> StyleSpec {
        StyleSpec {
            bold: self.font_bold,
            light: self.font_light,
            italic: self.italic,
            underline: self.underline,
            blink: self.blink,
            reversed: self.reversed,
            hidden: self.hidden,
            strike: self.line_through,
            normal: self.font_normal,
            fg: self.text@,
            bg: self.bg@,
        }
    }
}

impl Default for ActiveStyles {
    /// A fresh style state: no attributes, default colors.
    fn default() -> (r: Self)
        ensures
            r@ == default_style(),
    {
        let r = ActiveStyles {
            font_bold: false,
            font_light: false,
            italic: false,
            underline: false,
            blink: false,
            reversed: false,
            hidden: false,
            line_through: false,
            font_normal: false,
            text: String::new(),
            bg: String::new(),
        };
        proof {
            assert(r@ =~= default_style());
        }
        r
    }
}

impl ActiveStyles {
    /// Resets every attribute and both colors.
    pub fn clear(&mut self)
        ensures
            final(self)@ == default_style(),
    {
        self.font_bold = false;
        self.font_light = false;
        self.italic = false;
        self.underline = false;
        self.blink = false;
        self.reversed = false;
        self.hidden = false;
        self.line_through = false;
        self.font_normal = false;
        self.text = String::new();
        self.bg = String::new();
        proof {
            assert(final(self)@ =~= default_style());
        }
    }

    /// The style declaration for a fragment: the active pieces, space-joined.
    pub fn print(&self) -> (r: String)
        ensures
            r@ == style_decl(self@),
    {
        let mut parts: Vec<&str> = Vec::new();
        if self.font_bold {
            parts.push("font-weight:bold;");
        }
        if self.font_light {
            parts.push("font-weight:light;");
        }
        if self.italic {
            parts.push("font-style:italic;");
        }
        if self.underline {
            parts.push("text-decoration:underline;");
        }
        if !self.text.as_str().is_empty() {
            parts.push(self.text.as_str());
        }
        if !self.bg.as_str().is_empty() {
            parts.push(self.bg.as_str());
        }
        proof {
            assert(parts.deep_view() =~= style_parts(self@));
        }
        let ghost pv: Seq<Seq<char>> = parts.deep_view();
        let mut r = String::new();
        let mut i: usize = 0;
        while i < parts.len()
            invariant
                i <= parts@.len(),
                pv == parts.deep_view(),
                pv.len() == parts@.len(),
                forall|j: int| 0 <= j < parts@.len() ==> pv[j] == parts@[j]@,
                r@ == join_parts(pv.take(i as int), " "@),
            decreases parts@.len() - i,
        {
            if i > 0 {
                r.append(" ");
            }
            r.append(parts[i]);
            proof {
                lemma_join_step(pv, " "@, i as int);
            }
            i += 1;
        }
        proof {
            assert(pv.take(parts@.len() as int) =~= pv);
        }
        r
    }
}

/// Applies one ANSI select-graphic-rendition parameter to the style state,
/// per the standard SGR table; unrecognized parameters are ignored.
pub fn graphics_mode_class(seq: &u8, styles: &mut ActiveStyles)
    ensures
        final(styles)@ == apply_sgr(old(styles)@, *seq),
{
    match *seq {
        0 => styles.clear(),
        1 => styles.font_bold = true,
        2 => styles.font_light = true,
        3 => styles.italic = true,
        4 => styles.underline = true,
        5 => styles.blink = true,
        7 => styles.reversed = true,
        8 => styles.hidden = true,
        9 => styles.line_through = true,
        22 => styles.font_normal = true,
        23 => styles.italic = false,
        24 => styles.underline = false,
        25 => styles.blink = false,
        27 => styles.reversed = false,
        28 => styles.hidden = false,
        29 => styles.line_through = false,
        30 => styles.text = String::from_str("color:rgb(  1,  1,  1);"),
        31 => styles.text = String::from_str("color:rgb(222, 56, 43);"),
        32 => styles.text = String::from_str("color:rgb( 57,181, 74);"),
        33 => styles.text = String::from_str("color:rgb(255,199,  6);"),
        34 => styles.text = String::from_str("color:rgb(  0,111,184);"),
        35 => styles.text = String::from_str("color:rgb(118, 38,113);"),
        36 => styles.text = String::from_str("color:rgb( 44,181,233);"),
        37 => styles.text = String::from_str("color:rgb(204,204,204);"),
        40 => styles.bg = String::from_str("background-color:rgb(  1,  1,  1);"),
        41 => styles.bg = String::from_str("background-color:rgb(222, 56, 43);"),
        42 => styles.bg = String::from_str("background-color:rgb( 57,181, 74);"),
        43 => styles.bg = String::from_str("background-color:rgb(255,199,  6);"),
        44 => styles.bg = String::from_str("background-color:rgb(  0,111,184);"),
        45 => styles.bg = String::from_str("background-color:rgb(118, 38,113);"),
        46 => styles.bg = String::from_str("background-color:rgb( 44,181,233);"),
        47 => styles.bg = String::from_str("background-color:rgb(204,204,204);"),
        90 => styles.text = String::from_str("color:rgb(128,128,128);"),
        91 => styles.text = String::from_str("color:rgb(255,  0,  0);"),
        92 => styles.text = String::from_str("color:rgb(  0,255,  0);"),
        93 => styles.text = String::from_str("color:rgb(  0,255,  0);"),
        94 => styles.text = String::from_str("color:rgb(  0,  0,255);"),
        95 => styles.text = String::from_str("color:rgb(255,  0,255);"),
        96 => styles.text = String::from_str("color:rgb(  0,255,255);"),
        97 => styles.text = String::from_str("color:rgb(255,255,255);"),
        100 => styles.bg = String::from_str("background-color:rgb(128,128,128);"),
        101 => styles.bg = String::from_str("background-color:rgb(255,  0,  0);"),
        102 => styles.bg = String::from_str("background-color:rgb(  0,255,  0);"),
        103 => styles.bg = String::from_str("background-color:rgb(  0,255,  0);"),
        104 => styles.bg = String::from_str("background-color:rgb(  0,  0,255);"),
        105 => styles.bg = String::from_str("background-color:rgb(255,  0,255);"),
        106 => styles.bg = String::from_str("background-color:rgb(  0,255,255);"),
        107 => styles.bg = String::from_str("background-color:rgb(255,255,255);"),
        _ => {},
    }
    proof {
        assert(final(styles)@ =~= apply_sgr(old(styles)@, *seq));
    }
}

/// The concatenation of the rendered fragments, in order.
pub open spec fn flat_frags(fs: Seq<Seq<char>>) -> Seq<char>
    decreases fs.len(),
{
    if fs.len() == 0 {
        Seq::empty()
    } else {
        flat_frags(fs.drop_last()) + fs.last()
    }
}

fn str_chars(s: &str) -> (r: Vec<char>)
    ensures
        r@ == s@,
{
    let n = s.unicode_len();
    let mut r: Vec<char> = Vec::new();
    let mut i: usize = 0;
    while i < n
        invariant
            n == s@.len(),
            i <= n,
            r@ == s@.take(i as int),
        decreases n - i,
    {
        let c = s.get_char(i);
        r.push(c);
        proof {
            assert(r@ =~= s@.take(i as int + 1));
        }
        i += 1;
    }
    proof {
        assert(s@.take(n as int) =~= s@);
    }
    r
}

fn is_digit_e(c: char) -> (r: bool)
    ensures
        r == is_digit(c),
{
    let u = c as u32;
    48 <= u && u <= 57
}

fn is_param_char_e(c: char) -> (r: bool)
    ensures
        r == is_param_char(c),
{
    let u = c as u32;
    u == 59 || (48 <= u && u <= 57)
}

fn seg_value_exec(chars: &Vec<char>, lo: usize, hi: usize) -> (r: u8)
    requires
        lo <= hi && hi <= chars@.len(),
        forall|m: int| lo <= m < hi ==> is_digit(chars@[m]),
    ensures
        r == seg_val(chars@.subrange(lo as int, hi as int)),
{
    let ghost d = chars@.subrange(lo as int, hi as int);
    let mut acc: u8 = 0;
    let mut m: usize = lo;
    while m < hi
        invariant
            lo <= m <= hi,
            hi <= chars@.len(),
            d == chars@.subrange(lo as int, hi as int),
            forall|q: int| lo <= q < hi ==> is_digit(chars@[q]),
            acc == seg_val(d.take(m as int - lo as int)),
        decreases hi - m,
    {
        let u = chars[m] as u32;
        let dig = (u - 48) as u8;
        let wide: u32 = acc as u32 * 10 + dig as u32;
        acc = if wide > 255 {
            255
        } else {
            wide as u8
        };
        proof {
            assert(d.take(m as int - lo as int + 1).drop_last() =~= d.take(m as int - lo as int));
            assert(d.take(m as int - lo as int + 1).last() == chars@[m as int]);
        }
        m += 1;
    }
    proof {
        assert(d.take(hi as int - lo as int) =~= d);
    }
    acc
}

fn parse_params_exec(chars: &Vec<char>, lo: usize, hi: usize) -> (r: Vec<u8>)
    requires
        lo <= hi && hi <= chars@.len(),
        forall|m: int| lo <= m < hi ==> is_param_char(chars@[m]),
    ensures
        r@ == parse_params(chars@.subrange(lo as int, hi as int)),
{
    let ghost whole = chars@.subrange(lo as int, hi as int);
    let mut r: Vec<u8> = Vec::new();
    let mut pos: usize = lo;
    proof {
        assert(r@ + parse_params(whole) =~= parse_params(whole));
    }
    while pos < hi
        invariant
            lo <= pos <= hi,
            hi <= chars@.len(),
            whole == chars@.subrange(lo as int, hi as int),
            forall|m: int| lo <= m < hi ==> is_param_char(chars@[m]),
            r@ + parse_params(chars@.subrange(pos as int, hi as int)) == parse_params(whole),
        decreases hi - pos,
    {
        let ghost rest = chars@.subrange(pos as int, hi as int);
        let mut e: usize = pos;
        while e < hi && is_digit_e(chars[e])
            invariant
                pos <= e <= hi,
                hi <= chars@.len(),
                forall|q: int| pos <= q < e ==> is_digit(chars@[q]),
            decreases hi - e,
        {
            e += 1;
        }
        proof {
            assert forall|q: int| 0 <= q < e - pos implies is_digit(rest[q]) by {
                assert(rest[q] == chars@[pos + q]);
            }
            if (e as int) < hi as int {
                assert(rest[e as int - pos as int] == chars@[e as int]);
                assert(is_param_char(chars@[e as int]));
            }
            lemma_seg_run_at(rest, e as int - pos as int);
        }
        let v = seg_value_exec(chars, pos, e);
        r.push(v);
        proof {
            assert(chars@.subrange(pos as int, e as int) =~= rest.take(e as int - pos as int));
        }
        if e < hi {
            proof {
                assert(rest.skip(e as int - pos as int + 1) =~= chars@.subrange(
                    e as int + 1,
                    hi as int,
                ));
                assert(r@ + parse_params(chars@.subrange(e as int + 1, hi as int)) =~= parse_params(
                    whole,
                ));
            }
            pos = e + 1;
        } else {
            proof {
                assert(rest.take(e as int - pos as int) =~= rest);
                assert(parse_params(chars@.subrange(hi as int, hi as int)) == Seq::<u8>::empty());
                assert(r@ + parse_params(chars@.subrange(hi as int, hi as int)) =~= parse_params(
                    whole,
                ));
            }
            pos = hi;
        }
    }
    proof {
        assert(parse_params(chars@.subrange(hi as int, hi as int)) == Seq::<u8>::empty());
        assert(r@ + parse_params(chars@.subrange(hi as int, hi as int)) =~= r@);
    }
    r
}

/// One styled markup fragment wrapping the given stretch of the input text.
fn build_fragment(styles: &ActiveStyles, s: &str, from: usize, to: usize) -> (r: String)
    requires
        from <= to && to as int <= s@.len(),
    ensures
        r@ == fragment(styles@, s@.subrange(from as int, to as int)),
{
    let mut r = String::from_str("<div style=\"");
    let decl = styles.print();
    r.append(decl.as_str());
    r.append("\">");
    let seg = s.substring_char(from, to);
    r.append(seg);
    r.append("</div>");
    proof {
        assert(r@ =~= fragment(styles@, s@.subrange(from as int, to as int)));
    }
    r
}

/// Renders a byte stream as styled markup fragments: text runs become
/// fragments wrapping the text in the active style, CR+LF pairs become
/// line-break fragments, SGR sequences change the style, erase-display
/// discards what was rendered, every other escape sequence is a no-op, and
/// an unfinished sequence at the end of the input is dropped.  Invalid UTF-8
/// is replaced by the lossy rule before rendering.  The style state starts
/// fresh on every call.
#[verifier::rlimit(60)]
pub fn ansi_to_html(bytes: &[u8]) -> (r: String)
    ensures
        r@ == ansi_render(lossy_of(bytes@)),
{
    let s = lossy_utf8(bytes);
    let chars = str_chars(s.as_str());
    let n = chars.len();
    let mut styles = ActiveStyles::default();
    let mut frags: Vec<String> = Vec::new();
    let mut i: usize = 0;
    proof {
        assert(s@.skip(0) =~= s@);
        assert(frags.deep_view() =~= Seq::<Seq<char>>::empty());
    }
    while i < n
        invariant
            chars@ == s@,
            n == chars@.len(),
            i <= n,
            render_from(styles@, flat_frags(frags.deep_view()), tokenize(s@.skip(i as int)))
                == ansi_render(s@),
        decreases n - i,
    {
        let ghost rest = s@.skip(i as int);
        let ghost st0 = styles@;
        let ghost out0 = flat_frags(frags.deep_view());
        if chars[i] == ESC_CHAR {
            if i + 1 < n && chars[i + 1] == '[' {
                let mut k: usize = i + 2;
                while k < n && is_param_char_e(chars[k])
                    invariant
                        i + 2 <= k <= n,
                        n == chars@.len(),
                        chars@ == s@,
                        forall|q: int| i + 2 <= q < k ==> is_param_char(s@[q]),
                    decreases n - k,
                {
                    k += 1;
                }
                proof {
                    let prs = rest.skip(2);
                    assert(prs =~= s@.skip(i as int + 2));
                    assert forall|q: int| 0 <= q < k - i - 2 implies is_param_char(prs[q]) by {
                        assert(prs[q] == s@[i + 2 + q]);
                    }
                    if (k as int) < n as int {
                        assert(prs[k as int - i as int - 2] == s@[k as int]);
                    }
                    lemma_param_run_at(prs, k as int - i as int - 2);
                }
                if k >= n {
                    proof {
                        assert(rest.len() >= 2);
                        assert(rest[0] == ESC_CHAR);
                        assert(rest[1] == '[');
                        assert(tokenize(rest) =~= Seq::<AnsiToken>::empty());
                        assert(s@.skip(n as int) =~= Seq::<char>::empty());
                        assert(tokenize(s@.skip(n as int)) =~= Seq::<AnsiToken>::empty());
                    }
                    i = n;
                } else {
                    let fin = chars[k];
                    let ghost params = s@.subrange(i as int + 2, k as int);
                    let ghost after = s@.skip(k as int + 1);
                    proof {
                        assert(rest.len() >= 2);
                        assert(rest[0] == ESC_CHAR);
                        assert(rest[1] == '[');
                        assert(rest[2 + (k as int - i as int - 2)] == s@[k as int]);
                        assert(rest.subrange(2, 2 + (k as int - i as int - 2)) =~= params);
                        assert(rest.skip(2 + (k as int - i as int - 2) + 1) =~= after);
                    }
                    if fin == 'm' {
                        let ps = parse_params_exec(&chars, i + 2, k);
                        proof {
                            assert(chars@.subrange(i as int + 2, k as int) == params);
                        }
                        let mut m: usize = 0;
                        while m < ps.len()
                            invariant
                                m <= ps@.len(),
                                styles@ == apply_sgrs(st0, ps@.take(m as int)),
                            decreases ps@.len() - m,
                        {
                            let p = ps[m];
                            graphics_mode_class(&p, &mut styles);
                            proof {
                                assert(ps@.take(m as int + 1).drop_last() =~= ps@.take(m as int));
                                assert(ps@.take(m as int + 1).last() == ps@[m as int]);
                            }
                            m += 1;
                        }
                        proof {
                            assert(ps@.take(ps@.len() as int) =~= ps@);
                            let tok = AnsiToken::Sgr(parse_params(params));
                            let toks = seq![tok] + tokenize(after);
                            assert(tokenize(rest) == toks);
                            assert(toks[0] == tok);
                            assert(toks.drop_first() =~= tokenize(after));
                            assert(style_after(st0, tok) == apply_sgrs(st0, parse_params(params)));
                            assert(out_after(st0, out0, tok) == out0);
                            assert(render_from(st0, out0, toks) == render_from(
                                styles@,
                                out0,
                                tokenize(after),
                            ));
                        }
                        i = k + 1;
                    } else if fin == 'J' && k == i + 3 && chars[i + 2] == '2' {
                        frags.clear();
                        proof {
                            assert(params =~= seq!['2']);
                            let tok = AnsiToken::Erase;
                            let toks = seq![tok] + tokenize(after);
                            assert(tokenize(rest) == toks);
                            assert(toks[0] == tok);
                            assert(toks.drop_first() =~= tokenize(after));
                            assert(frags.deep_view() =~= Seq::<Seq<char>>::empty());
                            assert(out_after(st0, out0, tok) == Seq::<char>::empty());
                            assert(render_from(st0, out0, toks) == render_from(
                                st0,
                                Seq::<char>::empty(),
                                tokenize(after),
                            ));
                        }
                        i = k + 1;
                    } else {
                        proof {
                            if fin == 'J' {
                                if params == seq!['2'] {
                                    assert(params.len() == 1);
                                    assert(k == i + 3);
                                    assert(params[0] == '2');
                                    assert(s@[i as int + 2] == '2');
                                    assert(false);
                                }
                            }
                            assert(tokenize(rest) == tokenize(after));
                        }
                        i = k + 1;
                    }
                }
            } else {
                proof {
                    assert(rest[0] == ESC_CHAR);
                    if i + 1 < n {
                        assert(rest[1] == s@[i as int + 1]);
                    }
                    assert(tokenize(rest) == tokenize(rest.skip(1)));
                    assert(rest.skip(1) =~= s@.skip(i as int + 1));
                }
                i = i + 1;
            }
        } else {
            let mut j: usize = i;
            while j < n && chars[j] != ESC_CHAR
                invariant
                    i <= j <= n,
                    n == chars@.len(),
                    chars@ == s@,
                    forall|q: int| i <= q < j ==> s@[q] != ESC_CHAR,
                decreases n - j,
            {
                j += 1;
            }
            let ghost t = s@.subrange(i as int, j as int);
            proof {
                assert(rest[0] == s@[i as int]);
                assert(j > i);
                assert forall|q: int| 0 <= q < j - i implies rest[q] != ESC_CHAR by {
                    assert(rest[q] == s@[i + q]);
                }
                if (j as int) < n as int {
                    assert(rest[j as int - i as int] == s@[j as int]);
                }
                lemma_text_run_at(rest, j as int - i as int);
                let tok = AnsiToken::Text(rest.take(j as int - i as int));
                let toks = seq![tok] + tokenize(rest.skip(j as int - i as int));
                assert(tokenize(rest) == toks);
                assert(toks[0] == tok);
                assert(toks.drop_first() =~= tokenize(rest.skip(j as int - i as int)));
                assert(rest.take(j as int - i as int) =~= t);
                assert(rest.skip(j as int - i as int) =~= s@.skip(j as int));
                assert(style_after(st0, tok) == st0);
                assert(out_after(st0, out0, tok) == out0 + render_text(st0, t));
                assert(render_from(st0, out0, toks) == render_from(
                    st0,
                    out0 + render_text(st0, t),
                    tokenize(s@.skip(j as int)),
                ));
            }
            let mut pos: usize = i;
            proof {
                assert(s@.subrange(pos as int, j as int) == t);
            }
            while pos < j
                invariant
                    i <= pos <= j,
                    j <= n,
                    n == chars@.len(),
                    chars@ == s@,
                    styles@ == st0,
                    flat_frags(frags.deep_view()) + render_text(
                        st0,
                        s@.subrange(pos as int, j as int),
                    ) == out0 + render_text(st0, t),
                decreases j - pos,
            {
                let ghost seg_all = s@.subrange(pos as int, j as int);
                let ghost dv0 = frags.deep_view();
                let mut k2: usize = pos;
                while k2 < j - 1 && !(chars[k2] == '\r' && chars[k2 + 1] == '\n')
                    invariant
                        pos <= k2 <= j,
                        j <= n,
                        n == chars@.len(),
                        chars@ == s@,
                        pos < j,
                        forall|q: int|
                            pos <= q < k2 ==> !(#[trigger] s@[q] == '\r' && s@[q + 1] == '\n'),
                    decreases j - k2,
                {
                    k2 += 1;
                }
                if k2 < j - 1 {
                    if k2 > pos {
                        let f = build_fragment(&styles, s.as_str(), pos, k2);
                        frags.push(f);
                    }
                    frags.push(String::from_str("<div style=\"flex-basis:100%;height:0;\"></div>"));
                    proof {
                        assert(seg_all[k2 as int - pos as int] == s@[k2 as int]);
                        assert(seg_all[k2 as int - pos as int + 1] == s@[k2 as int + 1]);
                        assert forall|q: int| 0 <= q < k2 - pos implies !(#[trigger] seg_all[q]
                            == '\r' && seg_all[q + 1] == '\n') by {
                            assert(seg_all[q] == s@[pos + q]);
                            assert(seg_all[q + 1] == s@[pos + q + 1]);
                        }
                        lemma_first_crlf_at(seg_all, k2 as int - pos as int);
                        assert(seg_all.take(k2 as int - pos as int) =~= s@.subrange(
                            pos as int,
                            k2 as int,
                        ));
                        assert(seg_all.skip(k2 as int - pos as int + 2) =~= s@.subrange(
                            k2 as int + 2,
                            j as int,
                        ));
                        assert(render_text(st0, seg_all) == maybe_fragment(
                            st0,
                            s@.subrange(pos as int, k2 as int),
                        ) + break_marker() + render_text(
                            st0,
                            s@.subrange(k2 as int + 2, j as int),
                        ));
                        if k2 > pos {
                            assert(frags.deep_view() =~= dv0.push(
                                fragment(st0, s@.subrange(pos as int, k2 as int)),
                            ).push(break_marker()));
                            assert(flat_frags(dv0.push(
                                fragment(st0, s@.subrange(pos as int, k2 as int)),
                            )) == flat_frags(dv0) + fragment(
                                st0,
                                s@.subrange(pos as int, k2 as int),
                            )) by {
                                let dv1 = dv0.push(
                                    fragment(st0, s@.subrange(pos as int, k2 as int)),
                                );
                                assert(dv1.drop_last() =~= dv0);
                            }
                            let dv1 = dv0.push(fragment(st0, s@.subrange(pos as int, k2 as int)));
                            assert(flat_frags(dv1.push(break_marker())) == flat_frags(dv1)
                                + break_marker()) by {
                                assert(dv1.push(break_marker()).drop_last() =~= dv1);
                            }
                        } else {
                            assert(s@.subrange(pos as int, k2 as int).len() == 0);
                            assert(frags.deep_view() =~= dv0.push(break_marker()));
                            assert(flat_frags(dv0.push(break_marker())) == flat_frags(dv0)
                                + break_marker()) by {
                                assert(dv0.push(break_marker()).drop_last() =~= dv0);
                            }
                        }
                        assert(flat_frags(frags.deep_view()) + render_text(
                            st0,
                            s@.subrange(k2 as int + 2, j as int),
                        ) =~= flat_frags(dv0) + render_text(st0, seg_all));
                    }
                    pos = k2 + 2;
                } else {
                    if j > pos {
                        let f = build_fragment(&styles, s.as_str(), pos, j);
                        frags.push(f);
                    }
                    proof {
                        assert forall|q: int| 0 <= q && q + 1 < seg_all.len() implies !(
                        #[trigger] seg_all[q] == '\r' && seg_all[q + 1] == '\n') by {
                            assert(seg_all[q] == s@[pos + q]);
                            assert(seg_all[q + 1] == s@[pos + q + 1]);
                            assert(pos + q < k2 as int || k2 as int + 1 >= j as int);
                        }
                        assert(no_crlf(seg_all));
                        lemma_first_crlf_none(seg_all);
                        crate::ansi_spec::lemma_first_crlf_bounds(seg_all);
                        assert(render_text(st0, seg_all) == maybe_fragment(st0, seg_all));
                        assert(seg_all.len() > 0);
                        assert(frags.deep_view() =~= dv0.push(fragment(st0, seg_all)));
                        assert(flat_frags(dv0.push(fragment(st0, seg_all))) == flat_frags(dv0)
                            + fragment(st0, seg_all)) by {
                            assert(dv0.push(fragment(st0, seg_all)).drop_last() =~= dv0);
                        }
                        assert(s@.subrange(j as int, j as int).len() == 0);
                        assert(render_text(st0, s@.subrange(j as int, j as int))
                            == maybe_fragment(st0, s@.subrange(j as int, j as int)));
                        assert(flat_frags(frags.deep_view()) + render_text(
                            st0,
                            s@.subrange(j as int, j as int),
                        ) =~= flat_frags(dv0) + render_text(st0, seg_all));
                    }
                    pos = j;
                }
            }
            proof {
                assert(s@.subrange(j as int, j as int).len() == 0);
                assert(render_text(st0, s@.subrange(j as int, j as int)) == maybe_fragment(
                    st0,
                    s@.subrange(j as int, j as int),
                ));
                assert(flat_frags(frags.deep_view()) =~= out0 + render_text(st0, t));
            }
            i = j;
        }
    }
    proof {
        assert(s@.skip(n as int) =~= Seq::<char>::empty());
        assert(tokenize(s@.skip(n as int)) =~= Seq::<AnsiToken>::empty());
    }
    let mut r = String::new();
    let ghost fv = frags.deep_view();
    let mut q: usize = 0;
    while q < frags.len()
        invariant
            q <= frags@.len(),
            fv == frags.deep_view(),
            fv.len() == frags@.len(),
            r@ == flat_frags(fv.take(q as int)),
        decreases frags@.len() - q,
    {
        r.append(frags[q].as_str());
        proof {
            assert(fv[q as int] == frags@[q as int]@);
            assert(fv.take(q as int + 1).drop_last() =~= fv.take(q as int));
            assert(fv.take(q as int + 1).last() == fv[q as int]);
        }
        q += 1;
    }
    proof {
        assert(fv.take(frags@.len() as int) =~= fv);
    }
    r
}

} // verus!
