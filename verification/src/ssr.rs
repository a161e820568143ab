//! Server-side inflation: turn a template's HTML and its slot values into
//! plain markup for crawlers, and detect crawler user agents.

use vstd::prelude::*;

verus! {

/// Replace every non-overlapping occurrence of `pat` in `s` with `to`,
/// scanning left to right over the original text.
pub open spec fn replace_all(s: Seq<char>, pat: Seq<char>, to: Seq<char>) -> Seq<char>
    decreases s.len(),
{
    if pat.len() == 0 || s.len() == 0 {
        s
    } else if s.len() >= pat.len() && s.subrange(0, pat.len() as int) == pat {
        to + replace_all(s.skip(pat.len() as int), pat, to)
    } else {
        seq![s[0]] + replace_all(s.skip(1), pat, to)
    }
}

/// The comment marker of a slot: `<!--NAME-->`.
pub open spec fn marker_of(name: Seq<char>) -> Seq<char> {
    "<!--"@ + name + "-->"@
}

/// The deep view of a slot list: marker names and their values.
pub open spec fn slots_view(slots: Seq<(String, String)>) -> Seq<(Seq<char>, Seq<char>)> {
    slots.map_values(|p: (String, String)| (p.0@, p.1@))
}

/// Inflation: replace each slot's marker with its value, in slot order.
pub open spec fn inflate_spec(t: Seq<char>, slots: Seq<(Seq<char>, Seq<char>)>) -> Seq<char>
    decreases slots.len(),
{
    if slots.len() == 0 {
        t
    } else {
        inflate_spec(replace_all(t, marker_of(slots[0].0), slots[0].1), slots.skip(1))
    }
}

/// Whether the characters of `pat` occur at position `i` of `s`.
fn matches_at(s: &str, n: usize, i: usize, pat: &str, m: usize) -> (r: bool)
    requires
        n == s@.len(),
        m == pat@.len(),
        i + m <= n,
    ensures
        r == (s@.subrange(i as int, i + m) == pat@),
{
    let mut k: usize = 0;
    while k < m
        invariant
            k <= m,
            n == s@.len(),
            m == pat@.len(),
            i + m <= n,
            forall|j: int| 0 <= j < k ==> s@[i + j] == pat@[j],
        decreases m - k,
    {
        if s.get_char(i + k) != pat.get_char(k) {
            proof {
                assert(s@.subrange(i as int, i + m)[k as int] == s@[i + k]);
            }
            return false;
        }
        k = k + 1;
    }
    proof {
        assert(s@.subrange(i as int, i + m) =~= pat@);
    }
    true
}

/// Replace every occurrence of `pat` in `s` with `to`, as `replace_all`
/// describes.
fn replace_str(s: &str, pat: &str, to: &str) -> (r: String)
    ensures
        r@ == replace_all(s@, pat@, to@),
{
    let n = s.unicode_len();
    let m = pat.unicode_len();
    if m == 0 {
        let copy = s.to_owned();
        return copy;
    }
    let mut out = String::new();
    let mut i: usize = 0;
    proof {
        assert(s@.skip(0) =~= s@);
        assert(out@ + replace_all(s@, pat@, to@) =~= replace_all(s@, pat@, to@));
    }
    while i < n
        invariant
            i <= n,
            n == s@.len(),
            m == pat@.len(),
            m > 0,
            replace_all(s@, pat@, to@) == out@ + replace_all(s@.skip(i as int), pat@, to@),
        decreases n - i,
    {
        let ghost rest = s@.skip(i as int);
        if m <= n - i && matches_at(s, n, i, pat, m) {
            proof {
                assert(rest.subrange(0, m as int) =~= s@.subrange(i as int, i + m));
                assert(rest.skip(m as int) =~= s@.skip(i + m));
            }
            out.append(to);
            i = i + m;
        } else {
            proof {
                if i + m <= n {
                    assert(rest.subrange(0, m as int) =~= s@.subrange(i as int, i + m));
                }
                assert(rest.skip(1) =~= s@.skip(i as int + 1));
                assert(rest[0] == s@[i as int]);
            }
            let piece = s.substring_char(i, i + 1);
            proof {
                assert(piece@ =~= seq![s@[i as int]]);
            }
            out.append(piece);
            i = i + 1;
        }
    }
    proof {
        assert(s@.skip(n as int) =~= Seq::<char>::empty());
        assert(out@ + Seq::<char>::empty() =~= out@);
    }
    out
}

/// Inflate a template's HTML with slot values: each slot's comment marker
/// `<!--NAME-->` is replaced by its value, slot by slot in order.
pub fn inflate(template_html: &str, slots: &[(String, String)]) -> (r: String)
    ensures
        r@ == inflate_spec(template_html@, slots_view(slots@)),
{
    let mut result = template_html.to_owned();
    let mut k: usize = 0;
    proof {
        assert(slots_view(slots@).skip(0) =~= slots_view(slots@));
    }
    while k < slots.len()
        invariant
            k <= slots@.len(),
            inflate_spec(template_html@, slots_view(slots@)) == inflate_spec(
                result@,
                slots_view(slots@).skip(k as int),
            ),
        decreases slots@.len() - k,
    {
        let ghost sv = slots_view(slots@);
        proof {
            assert(sv.skip(k as int)[0] == sv[k as int]);
            assert(sv[k as int] == (slots@[k as int].0@, slots@[k as int].1@));
            assert(sv.skip(k as int).skip(1) =~= sv.skip(k as int + 1));
        }
        let mut marker = String::new();
        marker.append("<!--");
        marker.append(slots[k].0.as_str());
        marker.append("-->");
        proof {
            assert(marker@ == marker_of(sv[k as int].0));
        }
        result = replace_str(result.as_str(), marker.as_str(), slots[k].1.as_str());
        k = k + 1;
    }
    proof {
        assert(slots_view(slots@).skip(slots@.len() as int) =~= Seq::<(Seq<char>, Seq<char>)
        >::empty());
    }
    result
}

/// The meta tags of an inflated page, in order.
pub open spec fn meta_spec(meta: Seq<(Seq<char>, Seq<char>)>) -> Seq<char>
    decreases meta.len(),
{
    if meta.len() == 0 {
        Seq::empty()
    } else {
        "    <meta name=\""@ + meta[0].0 + "\" content=\""@ + meta[0].1 + "\">\n"@ + meta_spec(
            meta.skip(1),
        )
    }
}

/// A full inflated page: doctype, head with title and meta tags, and the
/// inflated body.
pub open spec fn page_spec(
    t: Seq<char>,
    slots: Seq<(Seq<char>, Seq<char>)>,
    title: Seq<char>,
    meta: Seq<(Seq<char>, Seq<char>)>,
) -> Seq<char> {
    "<!DOCTYPE html>\n<html lang=\"en\">\n<head>\n"@ + "    <meta charset=\"UTF-8\">\n"@
        + "    <meta name=\"viewport\" content=\"width=device-width, initial-scale=1.0\">\n"@
        + "    <title>"@ + title + "</title>\n"@ + meta_spec(meta) + "</head>\n<body>\n"@
        + inflate_spec(t, slots) + "\n</body>\n</html>"@
}

/// Inflate a full page with doctype, title and meta tags around the
/// inflated body.
pub fn inflate_page(
    template_html: &str,
    slots: &[(String, String)],
    title: &str,
    meta: &[(String, String)],
) -> (r: String)
    ensures
        r@ == page_spec(template_html@, slots_view(slots@), title@, slots_view(meta@)),
{
    let body = inflate(template_html, slots);
    let mut html = String::new();
    html.append("<!DOCTYPE html>\n<html lang=\"en\">\n<head>\n");
    html.append("    <meta charset=\"UTF-8\">\n");
    html.append("    <meta name=\"viewport\" content=\"width=device-width, initial-scale=1.0\">\n");
    html.append("    <title>");
    html.append(title);
    html.append("</title>\n");
    let ghost pre = html@;
    let mut k: usize = 0;
    while k < meta.len()
        invariant
            k <= meta@.len(),
            html@ == pre + meta_prefix(slots_view(meta@), k as int),
        decreases meta@.len() - k,
    {
        let ghost mv = slots_view(meta@);
        proof {
            assert(mv[k as int] == (meta@[k as int].0@, meta@[k as int].1@));
        }
        html.append("    <meta name=\"");
        html.append(meta[k].0.as_str());
        html.append("\" content=\"");
        html.append(meta[k].1.as_str());
        html.append("\">\n");
        proof {
            lemma_meta_prefix_snoc(mv, k as int);
        }
        k = k + 1;
    }
    proof {
        lemma_meta_prefix_all(slots_view(meta@));
    }
    html.append("</head>\n<body>\n");
    html.append(body.as_str());
    html.append("\n</body>\n</html>");
    proof {
        assert(html@ =~= page_spec(template_html@, slots_view(slots@), title@, slots_view(meta@)));
    }
    html
}

/// The meta tags of the first `k` entries.
pub open spec fn meta_prefix(meta: Seq<(Seq<char>, Seq<char>)>, k: int) -> Seq<char>
    decreases k,
{
    if k <= 0 {
        Seq::empty()
    } else {
        meta_prefix(meta, k - 1) + "    <meta name=\""@ + meta[k - 1].0 + "\" content=\""@ + meta[k
            - 1].1 + "\">\n"@
    }
}

proof fn lemma_meta_prefix_snoc(meta: Seq<(Seq<char>, Seq<char>)>, k: int)
    requires
        0 <= k < meta.len(),
    ensures
        meta_prefix(meta, k + 1) == meta_prefix(meta, k) + "    <meta name=\""@ + meta[k].0
            + "\" content=\""@ + meta[k].1 + "\">\n"@,
{
}

proof fn lemma_meta_prefix_all(meta: Seq<(Seq<char>, Seq<char>)>)
    ensures
        meta_prefix(meta, meta.len() as int) == meta_spec(meta),
    decreases meta.len(),
{
    if meta.len() == 0 {
    } else {
        lemma_meta_prefix_all(meta.skip(1));
        lemma_meta_prefix_shift(meta, meta.len() as int);
        assert(meta_prefix(meta, meta.len() as int) =~= meta_spec(meta));
    }
}

proof fn lemma_meta_prefix_shift(meta: Seq<(Seq<char>, Seq<char>)>, k: int)
    requires
        1 <= k <= meta.len(),
    ensures
        meta_prefix(meta, k) == "    <meta name=\""@ + meta[0].0 + "\" content=\""@ + meta[0].1
            + "\">\n"@ + meta_prefix(meta.skip(1), k - 1),
    decreases k,
{
    if k == 1 {
        assert(meta_prefix(meta, 0) == Seq::<char>::empty());
        assert(meta_prefix(meta.skip(1), 0) == Seq::<char>::empty());
        assert(meta_prefix(meta, 1) =~= "    <meta name=\""@ + meta[0].0 + "\" content=\""@
            + meta[0].1 + "\">\n"@ + meta_prefix(meta.skip(1), 0));
    } else {
        lemma_meta_prefix_shift(meta, k - 1);
        assert(meta.skip(1)[k - 2] == meta[k - 1]);
        assert(meta_prefix(meta, k) =~= "    <meta name=\""@ + meta[0].0 + "\" content=\""@
            + meta[0].1 + "\">\n"@ + meta_prefix(meta.skip(1), k - 1));
    }
}

/// The case-folded form of a user agent, as `str::to_lowercase` computes
/// it. The result depends on the characters alone.
pub uninterp spec fn lower_of(s: Seq<char>) -> Seq<char>;

/// Relies on `str::to_lowercase`: Unicode lowercasing, a function of the
/// characters alone.
#[verifier::external_body]
fn to_lowercase_str(s: &str) -> (r: String)
    ensures
        r@ == lower_of(s@),
{
    s.to_lowercase()
}

/// Whether `pat` occurs as a contiguous substring of `s`.
pub open spec fn contains_spec(s: Seq<char>, pat: Seq<char>) -> bool {
    exists|i: int|
        0 <= i <= s.len() - pat.len() && #[trigger] s.subrange(i, i + pat.len() as int) == pat
}

/// Substring search, as `contains_spec` describes.
fn contains_str(s: &str, pat: &str) -> (r: bool)
    ensures
        r == contains_spec(s@, pat@),
{
    let n = s.unicode_len();
    let m = pat.unicode_len();
    if m > n {
        proof {
            assert(!contains_spec(s@, pat@));
        }
        return false;
    }
    if m == 0 {
        proof {
            assert(s@.subrange(0, 0 + pat@.len() as int) =~= pat@);
            assert(contains_spec(s@, pat@));
        }
        return true;
    }
    let mut i: usize = 0;
    while i <= n - m
        invariant
            i <= n - m + 1,
            1 <= m <= n,
            n == s@.len(),
            m == pat@.len(),
            forall|j: int| 0 <= j < i ==> #[trigger] s@.subrange(j, j + pat@.len() as int)
                != pat@,
        decreases n - m + 1 - i,
    {
        if matches_at(s, n, i, pat, m) {
            proof {
                assert(contains_spec(s@, pat@));
            }
            return true;
        }
        i = i + 1;
    }
    proof {
        assert(!contains_spec(s@, pat@));
    }
    false
}

/// The bot markers this detector knows, checked against the case-folded
/// user agent.
pub open spec fn is_bot_spec(ua: Seq<char>) -> bool {
    let l = lower_of(ua);
    contains_spec(l, "googlebot"@) || contains_spec(l, "bingbot"@) || contains_spec(l, "slurp"@)
        || contains_spec(l, "duckduckbot"@) || contains_spec(l, "baiduspider"@) || contains_spec(
        l,
        "yandexbot"@,
    ) || contains_spec(l, "facebookexternalhit"@) || contains_spec(l, "twitterbot"@)
}

/// Detect whether a User-Agent belongs to a known search engine or
/// link-preview bot.
pub fn is_bot(user_agent: &str) -> (r: bool)
    ensures
        r == is_bot_spec(user_agent@),
{
    let ua_lower = to_lowercase_str(user_agent);
    let l = ua_lower.as_str();
    contains_str(l, "googlebot") || contains_str(l, "bingbot") || contains_str(l, "slurp")
        || contains_str(l, "duckduckbot") || contains_str(l, "baiduspider") || contains_str(
        l,
        "yandexbot",
    ) || contains_str(l, "facebookexternalhit") || contains_str(l, "twitterbot")
}

} // verus!
