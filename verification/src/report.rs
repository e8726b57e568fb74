//! Text for the HTML report and small helpers of the viewer: escaping, plugin file names and
//! clipboard pixels.
use vstd::prelude::*;
use crate::raster::RgbImage;

verus! {

/// The replacement of one character when escaping HTML.
pub open spec fn escape_char(c: char) -> Seq<char> {
    if c == '&' {
        "&amp;"@
    } else if c == '<' {
        "&lt;"@
    } else if c == '>' {
        "&gt;"@
    } else if c == '"' {
        "&quot;"@
    } else {
        seq![c]
    }
}

/// `s` with `&`, `<`, `>` and `"` replaced by their HTML entities.
pub open spec fn escape_spec(s: Seq<char>) -> Seq<char>
    decreases s.len(),
{
    if s.len() == 0 {
        seq![]
    } else {
        escape_spec(s.drop_last()) + escape_char(s.last())
    }
}

/// Escapes the characters `&`, `<`, `>` and `"` as HTML entities.
pub fn escape_html(s: &str) -> (r: String)
    ensures
        r@ == escape_spec(s@),
{
    let n: usize = s.unicode_len();
    let mut r: String = String::new();
    let mut i: usize = 0;
    while i < n
        invariant
            n == s@.len(),
            i <= n,
            r@ == escape_spec(s@.subrange(0, i as int)),
        decreases n - i,
    {
        let c: char = s.get_char(i);
        let ghost prev = r@;
        if c == '&' {
            r.append("&amp;");
        } else if c == '<' {
            r.append("&lt;");
        } else if c == '>' {
            r.append("&gt;");
        } else if c == '"' {
            r.append("&quot;");
        } else {
            r.append(s.substring_char(i, i + 1));
            assert(s@.subrange(i as int, i + 1) =~= seq![c]);
        }
        proof {
            let sub = s@.subrange(0, i + 1);
            assert(sub.drop_last() =~= s@.subrange(0, i as int));
            assert(sub.last() == c);
        }
        i += 1;
    }
    proof {
        assert(s@.subrange(0, n as int) =~= s@);
    }
    r
}

/// Escaped text holds no `<`, `>` or `"`: it cannot open or close a tag or end an attribute.
pub proof fn lemma_escape_has_no_markup(s: Seq<char>)
    ensures
        forall|i: int|
            0 <= i < escape_spec(s).len() ==> {
                let c = #[trigger] escape_spec(s)[i];
                c != '<' && c != '>' && c != '"'
            },
    decreases s.len(),
{
    reveal_strlit("&amp;");
    reveal_strlit("&lt;");
    reveal_strlit("&gt;");
    reveal_strlit("&quot;");
    if s.len() > 0 {
        lemma_escape_has_no_markup(s.drop_last());
        let a = escape_spec(s.drop_last());
        let b = escape_char(s.last());
        assert forall|i: int| 0 <= i < escape_spec(s).len() implies {
            let c = #[trigger] escape_spec(s)[i];
            c != '<' && c != '>' && c != '"'
        } by {
            if i >= a.len() {
                assert(escape_spec(s)[i] == b[i - a.len()]);
            } else {
                assert(escape_spec(s)[i] == a[i]);
            }
        }
    }
}

/// Text without any of `&`, `<`, `>` and `"` is left as it is.
pub proof fn lemma_escape_plain_is_identity(s: Seq<char>)
    requires
        forall|i: int| 0 <= i < s.len() ==> {
            let c = #[trigger] s[i];
            c != '&' && c != '<' && c != '>' && c != '"'
        },
    ensures
        escape_spec(s) == s,
    decreases s.len(),
{
    if s.len() > 0 {
        assert forall|i: int| 0 <= i < s.drop_last().len() implies {
            let c = #[trigger] s.drop_last()[i];
            c != '&' && c != '<' && c != '>' && c != '"'
        } by {
            assert(s.drop_last()[i] == s[i]);
        }
        lemma_escape_plain_is_identity(s.drop_last());
        assert(s.drop_last().push(s.last()) =~= s);
        assert(seq![s.last()] =~= escape_char(s.last()));
        assert(s.drop_last() + seq![s.last()] =~= s);
    }
}

/// Escaping text joined from two parts escapes each part.
pub proof fn lemma_escape_concat(a: Seq<char>, b: Seq<char>)
    ensures
        escape_spec(a + b) == escape_spec(a) + escape_spec(b),
    decreases b.len(),
{
    if b.len() == 0 {
        assert(a + b =~= a);
        assert(escape_spec(a) + escape_spec(b) =~= escape_spec(a));
    } else {
        lemma_escape_concat(a, b.drop_last());
        assert((a + b).drop_last() =~= a + b.drop_last());
        assert((a + b).last() == b.last());
        assert(escape_spec(a) + escape_spec(b.drop_last()) + escape_char(b.last()) =~= escape_spec(a)
            + (escape_spec(b.drop_last()) + escape_char(b.last())));
    }
}

/// How many times `ch` occurs in `s`.
pub open spec fn count_char(s: Seq<char>, ch: char) -> nat
    decreases s.len(),
{
    if s.len() == 0 {
        0
    } else {
        count_char(s.drop_last(), ch) + if s.last() == ch { 1nat } else { 0nat }
    }
}

/// Escaping lengthens the text by 4 for each `&`, 3 for each `<` and each `>`, and 5 for each
/// `"`.
pub proof fn lemma_escape_len(s: Seq<char>)
    ensures
        escape_spec(s).len() == s.len() + 4 * count_char(s, '&') + 3 * count_char(s, '<') + 3
            * count_char(s, '>') + 5 * count_char(s, '"'),
    decreases s.len(),
{
    reveal_strlit("&amp;");
    reveal_strlit("&lt;");
    reveal_strlit("&gt;");
    reveal_strlit("&quot;");
    if s.len() > 0 {
        lemma_escape_len(s.drop_last());
    }
}

/// A character that occurs in `s` is counted at least once.
proof fn lemma_count_char_positive(s: Seq<char>, ch: char, i: int)
    requires
        0 <= i < s.len(),
        s[i] == ch,
    ensures
        count_char(s, ch) > 0,
    decreases s.len(),
{
    if i < s.len() - 1 {
        assert(s.drop_last()[i] == s[i]);
        lemma_count_char_positive(s.drop_last(), ch, i);
    }
}

/// Escaping leaves the text as it is exactly when the text has none of `&`, `<`, `>` and `"`.
pub proof fn lemma_escape_is_identity_iff_plain(s: Seq<char>)
    ensures
        escape_spec(s) == s <==> forall|i: int| 0 <= i < s.len() ==> {
            let c = #[trigger] s[i];
            c != '&' && c != '<' && c != '>' && c != '"'
        },
{
    lemma_escape_len(s);
    if forall|i: int| 0 <= i < s.len() ==> {
        let c = #[trigger] s[i];
        c != '&' && c != '<' && c != '>' && c != '"'
    } {
        lemma_escape_plain_is_identity(s);
    } else {
        let i = choose|i: int| 0 <= i < s.len() && !({
            let c = #[trigger] s[i];
            c != '&' && c != '<' && c != '>' && c != '"'
        });
        lemma_count_char_positive(s, s[i], i);
        assert(escape_spec(s).len() > s.len());
    }
}

/// `r` has one of the four entities `&amp;`, `&lt;`, `&gt;` and `&quot;` at position `i`.
pub open spec fn entity_at(r: Seq<char>, i: int) -> bool {
    ||| i + 5 <= r.len() && r.subrange(i, i + 5) == "&amp;"@
    ||| i + 4 <= r.len() && r.subrange(i, i + 4) == "&lt;"@
    ||| i + 4 <= r.len() && r.subrange(i, i + 4) == "&gt;"@
    ||| i + 6 <= r.len() && r.subrange(i, i + 6) == "&quot;"@
}

/// Decodes the entities `&amp;`, `&lt;`, `&gt;` and `&quot;` from left to right; every other
/// character stands for itself.
pub open spec fn unescape_spec(r: Seq<char>) -> Seq<char>
    decreases r.len(),
{
    if r.len() == 0 {
        seq![]
    } else if r.len() >= 5 && r.subrange(0, 5) == "&amp;"@ {
        seq!['&'] + unescape_spec(r.subrange(5, r.len() as int))
    } else if r.len() >= 4 && r.subrange(0, 4) == "&lt;"@ {
        seq!['<'] + unescape_spec(r.subrange(4, r.len() as int))
    } else if r.len() >= 4 && r.subrange(0, 4) == "&gt;"@ {
        seq!['>'] + unescape_spec(r.subrange(4, r.len() as int))
    } else if r.len() >= 6 && r.subrange(0, 6) == "&quot;"@ {
        seq!['"'] + unescape_spec(r.subrange(6, r.len() as int))
    } else {
        seq![r[0]] + unescape_spec(r.subrange(1, r.len() as int))
    }
}

/// Escaping a single character gives its replacement.
proof fn lemma_escape_one(c: char)
    ensures
        escape_spec(seq![c]) == escape_char(c),
{
    assert(seq![c].drop_last() =~= Seq::<char>::empty());
    assert(escape_spec(seq![c].drop_last()) =~= Seq::<char>::empty());
    assert(seq![c].last() == c);
    assert(Seq::<char>::empty() + escape_char(c) =~= escape_char(c));
}

/// Decoding the escaped text gives back the text: escaping loses nothing.
pub proof fn lemma_unescape_escape(s: Seq<char>)
    ensures
        unescape_spec(escape_spec(s)) == s,
    decreases s.len(),
{
    reveal_strlit("&amp;");
    reveal_strlit("&lt;");
    reveal_strlit("&gt;");
    reveal_strlit("&quot;");
    if s.len() == 0 {
        assert(escape_spec(s) =~= Seq::<char>::empty());
    } else {
        let c = s[0];
        let rest = s.subrange(1, s.len() as int);
        assert(s =~= seq![c] + rest);
        lemma_escape_concat(seq![c], rest);
        lemma_escape_one(c);
        lemma_unescape_escape(rest);
        let b = escape_char(c);
        let e = escape_spec(rest);
        let r = b + e;
        assert(escape_spec(s) == r);
        assert(r.subrange(b.len() as int, r.len() as int) =~= e);
        if c == '&' {
            assert(r.subrange(0, 5) =~= "&amp;"@);
        } else if c == '<' {
            if r.len() >= 5 {
                assert(r.subrange(0, 5)[1] != "&amp;"@[1]);
            }
            assert(r.subrange(0, 4) =~= "&lt;"@);
        } else if c == '>' {
            if r.len() >= 5 {
                assert(r.subrange(0, 5)[1] != "&amp;"@[1]);
            }
            assert(r.subrange(0, 4)[1] != "&lt;"@[1]);
            assert(r.subrange(0, 4) =~= "&gt;"@);
        } else if c == '"' {
            assert(r.subrange(0, 5)[1] != "&amp;"@[1]);
            assert(r.subrange(0, 4)[1] != "&lt;"@[1]);
            assert(r.subrange(0, 4)[1] != "&gt;"@[1]);
            assert(r.subrange(0, 6) =~= "&quot;"@);
        } else {
            assert(r[0] == c);
            if r.len() >= 5 {
                assert(r.subrange(0, 5)[0] != "&amp;"@[0]);
            }
            if r.len() >= 4 {
                assert(r.subrange(0, 4)[0] != "&lt;"@[0]);
                assert(r.subrange(0, 4)[0] != "&gt;"@[0]);
            }
            if r.len() >= 6 {
                assert(r.subrange(0, 6)[0] != "&quot;"@[0]);
            }
            assert(seq![c] + rest =~= s);
        }
    }
}

/// In escaped text every `&` begins one of the four entities.
pub proof fn lemma_escape_ampersands(s: Seq<char>)
    ensures
        forall|i: int| 0 <= i < escape_spec(s).len() && #[trigger] escape_spec(s)[i] == '&' ==> entity_at(
            escape_spec(s),
            i,
        ),
    decreases s.len(),
{
    reveal_strlit("&amp;");
    reveal_strlit("&lt;");
    reveal_strlit("&gt;");
    reveal_strlit("&quot;");
    if s.len() > 0 {
        lemma_escape_ampersands(s.drop_last());
        let a = escape_spec(s.drop_last());
        let c = s.last();
        let b = escape_char(c);
        let r = a + b;
        assert(escape_spec(s) == r);
        assert forall|i: int| 0 <= i < r.len() && #[trigger] r[i] == '&' implies entity_at(r, i) by {
            if i < a.len() {
                assert(a[i] == '&');
                assert(entity_at(a, i));
                if i + 5 <= a.len() {
                    assert(r.subrange(i, i + 5) =~= a.subrange(i, i + 5));
                }
                if i + 4 <= a.len() {
                    assert(r.subrange(i, i + 4) =~= a.subrange(i, i + 4));
                }
                if i + 6 <= a.len() {
                    assert(r.subrange(i, i + 6) =~= a.subrange(i, i + 6));
                }
            } else {
                assert(b[i - a.len()] == '&');
                assert(i == a.len());
                assert(r.subrange(i, r.len() as int) =~= b);
                if c == '&' {
                    assert(r.subrange(i, i + 5) =~= "&amp;"@);
                } else if c == '<' {
                    assert(r.subrange(i, i + 4) =~= "&lt;"@);
                } else if c == '>' {
                    assert(r.subrange(i, i + 4) =~= "&gt;"@);
                } else {
                    assert(r.subrange(i, i + 6) =~= "&quot;"@);
                }
            }
        }
    }
}

/// `a` equals `b`, compared character by character.
pub fn str_equal(a: &str, b: &str) -> (r: bool)
    ensures
        r == (a@ == b@),
{
    let n: usize = a.unicode_len();
    let m: usize = b.unicode_len();
    if n != m {
        return false;
    }
    let mut i: usize = 0;
    while i < n
        invariant
            n == a@.len(),
            m == b@.len(),
            n == m,
            i <= n,
            forall|k: int| 0 <= k < i ==> a@[k] == b@[k],
        decreases n - i,
    {
        if a.get_char(i) != b.get_char(i) {
            return false;
        }
        i += 1;
    }
    proof {
        assert(a@ =~= b@);
    }
    true
}

/// `s` begins with `prefix`.
pub fn str_starts_with(s: &str, prefix: &str) -> (r: bool)
    ensures
        r == (prefix@.len() <= s@.len() && s@.subrange(0, prefix@.len() as int) == prefix@),
{
    let n: usize = s.unicode_len();
    let m: usize = prefix.unicode_len();
    if m > n {
        return false;
    }
    let mut i: usize = 0;
    while i < m
        invariant
            n == s@.len(),
            m == prefix@.len(),
            m <= n,
            i <= m,
            forall|k: int| 0 <= k < i ==> s@[k] == prefix@[k],
        decreases m - i,
    {
        if s.get_char(i) != prefix.get_char(i) {
            assert(s@.subrange(0, m as int)[i as int] != prefix@[i as int]);
            return false;
        }
        i += 1;
    }
    proof {
        assert(s@.subrange(0, m as int) =~= prefix@);
    }
    true
}

/// `s` ends with `suffix`.
pub fn str_ends_with(s: &str, suffix: &str) -> (r: bool)
    ensures
        r == (suffix@.len() <= s@.len() && s@.subrange(s@.len() - suffix@.len(), s@.len() as int)
            == suffix@),
{
    let n: usize = s.unicode_len();
    let m: usize = suffix.unicode_len();
    if m > n {
        return false;
    }
    let off: usize = n - m;
    let mut i: usize = 0;
    while i < m
        invariant
            n == s@.len(),
            m == suffix@.len(),
            m <= n,
            off == n - m,
            i <= m,
            forall|k: int| 0 <= k < i ==> s@[off + k] == suffix@[k],
        decreases m - i,
    {
        if s.get_char(off + i) != suffix.get_char(i) {
            assert(s@.subrange(off as int, n as int)[i as int] != suffix@[i as int]);
            return false;
        }
        i += 1;
    }
    proof {
        assert(s@.subrange(off as int, n as int) =~= suffix@);
    }
    true
}

/// The file name of a plugin library that the viewer loads: it begins with `plugin_`, ends with
/// `.dll`, and is not the steganalysis library known not to work.
pub open spec fn is_plugin_library_spec(name: Seq<char>) -> bool {
    &&& "plugin_"@.len() <= name.len()
    &&& name.subrange(0, "plugin_"@.len() as int) == "plugin_"@
    &&& ".dll"@.len() <= name.len()
    &&& name.subrange(name.len() - ".dll"@.len(), name.len() as int) == ".dll"@
    &&& name != "plugin_penet_steganalysis.dll"@
}

/// Whether the viewer loads the file `name` as a plugin library.
pub fn is_plugin_library(name: &str) -> (r: bool)
    ensures
        r == is_plugin_library_spec(name@),
{
    str_starts_with(name, "plugin_") && str_ends_with(name, ".dll") && !str_equal(
        name,
        "plugin_penet_steganalysis.dll",
    )
}

/// Pixel `p` of the RGBA buffer `rgba` holds pixel `p` of the RGB buffer `rgb`, opaque.
pub open spec fn rgba_pixel(rgba: Seq<u8>, rgb: Seq<u8>, p: int) -> bool {
    &&& rgba[4 * p] == rgb[3 * p]
    &&& rgba[4 * p + 1] == rgb[3 * p + 1]
    &&& rgba[4 * p + 2] == rgb[3 * p + 2]
    &&& rgba[4 * p + 3] == 255
}

/// The RGBA bytes of an image for the clipboard: each pixel's three channels, then an opaque
/// alpha of 255.
pub fn rgb_to_rgba(img: &RgbImage) -> (rgba: Vec<u8>)
    requires
        img.wf(),
        img.width * img.height * 4 <= usize::MAX,
    ensures
        rgba@.len() == 4 * (img.width * img.height),
        forall|p: int| 0 <= p < img.width * img.height ==> #[trigger] rgba_pixel(rgba@, img.data@, p),
{
    let len: usize = img.data.len();
    let n: usize = len / 3;
    let mut rgba: Vec<u8> = Vec::new();
    let mut p: usize = 0;
    while p < n
        invariant
            len == img.data@.len(),
            n == img.width * img.height,
            len == 3 * n,
            4 * n <= usize::MAX,
            p <= n,
            rgba@.len() == 4 * p,
            forall|q: int| 0 <= q < p ==> #[trigger] rgba_pixel(rgba@, img.data@, q),
        decreases n - p,
    {
        let ghost before = rgba@;
        rgba.push(img.data[3 * p]);
        rgba.push(img.data[3 * p + 1]);
        rgba.push(img.data[3 * p + 2]);
        rgba.push(255);
        proof {
            assert(rgba_pixel(rgba@, img.data@, p as int));
            assert forall|q: int| 0 <= q < p + 1 implies #[trigger] rgba_pixel(rgba@, img.data@, q) by {
                if q < p {
                    assert(rgba_pixel(before, img.data@, q));
                }
            }
        }
        p += 1;
    }
    rgba
}

/// The report card of one analysis: its name as a heading, its image, its description and, where
/// it has one, a link to its reference; every text escaped.
pub open spec fn report_card_spec(name: Seq<char>, file: Seq<char>, desc: Seq<char>, reference: Seq<char>) -> Seq<char> {
    "<div class=\"card\">"@ + "<h2>"@ + escape_spec(name) + "</h2>"@ + "<img src=\""@ + file + "\" alt=\""@
        + escape_spec(name) + "\">"@ + "<p class=\"desc\">"@ + escape_spec(desc) + "</p>"@ + (if reference.len()
        > 0 {
        "<p class=\"ref\">📖 <a href=\""@ + escape_spec(reference) + "\">"@ + escape_spec(reference)
            + "</a></p>"@
    } else {
        seq![]
    }) + "</div>\n"@
}

/// The HTML card of one analysis in the report (see `report_card_spec`).
pub fn report_card(name: &str, file: &str, desc: &str, reference: &str) -> (r: String)
    ensures
        r@ == report_card_spec(name@, file@, desc@, reference@),
{
    let mut html: String = String::new();
    html.append("<div class=\"card\">");
    html.append("<h2>");
    let escaped_name = escape_html(name);
    html.append(escaped_name.as_str());
    html.append("</h2>");
    html.append("<img src=\"");
    html.append(file);
    html.append("\" alt=\"");
    html.append(escaped_name.as_str());
    html.append("\">");
    html.append("<p class=\"desc\">");
    let escaped_desc = escape_html(desc);
    html.append(escaped_desc.as_str());
    html.append("</p>");
    let ghost before_ref = html@;
    if reference.unicode_len() > 0 {
        let escaped_ref = escape_html(reference);
        html.append("<p class=\"ref\">📖 <a href=\"");
        html.append(escaped_ref.as_str());
        html.append("\">");
        html.append(escaped_ref.as_str());
        html.append("</a></p>");
    }
    html.append("</div>\n");
    proof {
        if reference@.len() > 0 {
            assert(html@ =~= before_ref + ("<p class=\"ref\">📖 <a href=\""@ + escape_spec(reference@)
                + "\">"@ + escape_spec(reference@) + "</a></p>"@) + "</div>\n"@);
        } else {
            assert(html@ =~= before_ref + seq![] + "</div>\n"@);
        }
    }
    html
}

} // verus!
