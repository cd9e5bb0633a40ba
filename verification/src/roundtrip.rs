//! The round-trip law: parsing the rendering of a tree of inline,
//! all-selector nodes recovers the titles and the body text.

use vstd::prelude::*;
use crate::model::{InstructionItem, InstructionItemVariant0Targets, Targets};
use crate::multiple::spec_item_title;
use crate::parse::{
    lemma_find_newline_bounds, lemma_trim_end_take, lemma_trim_start_skip, spec_find_newline,
    spec_kept, spec_kept_sections, spec_lines, spec_lines_from, spec_parse_sections,
    spec_sections, spec_skip_hashes, spec_strip_cr, spec_trim, spec_trim_end, spec_trim_start,
    SpecSection,
};
use crate::render::{spec_render_item, spec_render_items, spec_heading, spec_hashes, BodyFile};
use crate::text::spec_is_ws;

verus! {

broadcast use vstd::string::group_string_axioms;

/// Free of line breaks and carriage returns.
pub open spec fn spec_no_line_break(s: Seq<char>) -> bool {
    forall|i: int| 0 <= i < s.len() ==> #[trigger] s[i] != '\n' && s[i] != '\r'
}

/// Free of carriage returns.
pub open spec fn spec_no_cr(s: Seq<char>) -> bool {
    forall|i: int| 0 <= i < s.len() ==> #[trigger] s[i] != '\r'
}

/// No line of `s` opens with a heading marker.
pub open spec fn spec_no_heading_line(s: Seq<char>) -> bool {
    forall|i: int|
        0 <= i < s.len() && (i == 0 || s[i - 1] == '\n') ==> #[trigger] s[i] != '#'
}

/// The first line break at or after `i` is found where it stands.
proof fn lemma_find_newline_at(s: Seq<char>, i: int, m: int)
    requires
        0 <= i <= m < s.len(),
        s[m] == '\n',
        forall|j: int| i <= j < m ==> #[trigger] s[j] != '\n',
    ensures
        spec_find_newline(s, i) == m,
    decreases m - i,
{
    if i < m {
        lemma_find_newline_at(s, i + 1, m);
    }
}

/// The search never runs past a line break.
proof fn lemma_find_newline_finds(s: Seq<char>, i: int, m: int)
    requires
        0 <= i <= m < s.len(),
        s[m] == '\n',
    ensures
        spec_find_newline(s, i) <= m,
    decreases m - i,
{
    if s[i] != '\n' && i < m {
        lemma_find_newline_finds(s, i + 1, m);
    }
}

/// What the search finds, when inside the text, is a line break.
proof fn lemma_find_newline_char(s: Seq<char>, i: int)
    requires
        0 <= i <= s.len(),
    ensures
        spec_find_newline(s, i) < s.len() ==> s[spec_find_newline(s, i)] == '\n',
    decreases s.len() - i,
{
    if i < s.len() && s[i] != '\n' {
        lemma_find_newline_char(s, i + 1);
    }
}

/// Nothing before the found break is a break.
proof fn lemma_find_newline_before(s: Seq<char>, i: int)
    requires
        0 <= i <= s.len(),
    ensures
        forall|j: int| i <= j < spec_find_newline(s, i) ==> #[trigger] s[j] != '\n',
    decreases s.len() - i,
{
    if i < s.len() && s[i] != '\n' {
        lemma_find_newline_before(s, i + 1);
    }
}

/// Searching a suffix finds the same break, shifted.
proof fn lemma_find_newline_skip(s: Seq<char>, d: int, i: int)
    requires
        0 <= d <= i <= s.len(),
    ensures
        spec_find_newline(s, i) == d + spec_find_newline(s.skip(d), i - d),
    decreases s.len() - i,
{
    if i < s.len() {
        assert(s.skip(d)[i - d] == s[i]);
        if s[i] != '\n' {
            lemma_find_newline_skip(s, d, i + 1);
        }
    }
}

/// Splitting from a position splits the suffix from its start.
proof fn lemma_lines_from_skip(s: Seq<char>, d: int)
    requires
        0 <= d <= s.len(),
    ensures
        spec_lines_from(s, d) == spec_lines(s.skip(d)),
    decreases s.len() - d,
{
    if d == s.len() {
        assert(s.skip(d) =~= Seq::<char>::empty());
    } else {
        let e = spec_find_newline(s, d);
        lemma_find_newline_bounds(s, d);
        lemma_find_newline_skip(s, d, d);
        let e2 = e - d;
        lemma_find_newline_bounds(s.skip(d), 0);
        if e == s.len() {
            assert(s.subrange(d, e) =~= s.skip(d));
            assert(s.skip(d).subrange(0, e2) =~= s.skip(d));
            assert(spec_lines(s.skip(d)) =~= seq![s.skip(d)]);
            assert(spec_lines_from(s, d) =~= seq![s.skip(d)]);
        } else {
            assert(s.subrange(d, e) =~= s.skip(d).subrange(0, e2));
            lemma_lines_from_skip(s, e + 1);
            lemma_lines_from_skip(s.skip(d), e2 + 1);
            assert(s.skip(d).skip(e2 + 1) =~= s.skip(e + 1));
            assert(spec_lines_from(s, d) =~= seq![spec_strip_cr(s.subrange(d, e))]
                + spec_lines(s.skip(e + 1)));
            assert(spec_lines(s.skip(d)) =~= seq![spec_strip_cr(s.skip(d).subrange(0, e2))]
                + spec_lines(s.skip(d).skip(e2 + 1)));
        }
    }
}

/// A break inside the prefix is found the same in the whole.
proof fn lemma_find_newline_prefix(a: Seq<char>, b: Seq<char>, i: int)
    requires
        0 <= i <= a.len(),
        spec_find_newline(a, i) < a.len(),
    ensures
        spec_find_newline(a + b, i) == spec_find_newline(a, i),
    decreases a.len() - i,
{
    lemma_find_newline_bounds(a, i);
    assert((a + b)[i] == a[i]);
    if a[i] != '\n' {
        lemma_find_newline_prefix(a, b, i + 1);
    }
}

/// Line splitting distributes over concatenation at a line break.
proof fn lemma_lines_concat(a: Seq<char>, b: Seq<char>)
    requires
        a.len() == 0 || a[a.len() - 1] == '\n',
    ensures
        spec_lines(a + b) == spec_lines(a) + spec_lines(b),
    decreases a.len(),
{
    if a.len() == 0 {
        assert(a + b =~= b);
        assert(spec_lines(a) + spec_lines(b) =~= spec_lines(b));
    } else {
        let e = spec_find_newline(a, 0);
        lemma_find_newline_finds(a, 0, a.len() - 1);
        lemma_find_newline_bounds(a, 0);
        lemma_find_newline_prefix(a, b, 0);
        assert((a + b).subrange(0, e) =~= a.subrange(0, e));
        lemma_lines_from_skip(a + b, e + 1);
        lemma_lines_from_skip(a, e + 1);
        assert((a + b).skip(e + 1) =~= a.skip(e + 1) + b);
        if a.skip(e + 1).len() > 0 {
            assert(a.skip(e + 1)[a.skip(e + 1).len() - 1] == a[a.len() - 1]);
        }
        lemma_lines_concat(a.skip(e + 1), b);
        assert(spec_lines(a + b) =~= seq![spec_strip_cr(a.subrange(0, e))] + (spec_lines(
            a.skip(e + 1),
        ) + spec_lines(b)));
        assert(spec_lines(a) =~= seq![spec_strip_cr(a.subrange(0, e))] + spec_lines(
            a.skip(e + 1),
        ));
        assert(seq![spec_strip_cr(a.subrange(0, e))] + (spec_lines(a.skip(e + 1)) + spec_lines(b))
            =~= (seq![spec_strip_cr(a.subrange(0, e))] + spec_lines(a.skip(e + 1))) + spec_lines(
            b,
        ));
    }
}

/// A break-free text followed by one break is one line.
proof fn lemma_lines_single(x: Seq<char>)
    requires
        forall|i: int| 0 <= i < x.len() ==> #[trigger] x[i] != '\n',
        x.len() == 0 || x[x.len() - 1] != '\r',
    ensures
        spec_lines(x + "\n"@) == seq![x],
    decreases 0int,
{
    reveal_strlit("\n");
    assert("\n"@.len() == 1);
    let s = x + "\n"@;
    assert(s[x.len() as int] == '\n');
    lemma_find_newline_at(s, 0, x.len() as int);
    assert(s.subrange(0, x.len() as int) =~= x);
    assert(spec_strip_cr(x) =~= x);
    assert(spec_lines_from(s, x.len() as int + 1) =~= Seq::<Seq<char>>::empty());
    assert(spec_lines(s) =~= seq![x]);
}

/// The emitted sections and the open section after scanning `lines` from
/// the state `st`, without the closing flush.
pub open spec fn spec_scan(lines: Seq<Seq<char>>, st: SpecSection) -> (Seq<SpecSection>, SpecSection)
    decreases lines.len(),
{
    if lines.len() == 0 {
        (Seq::empty(), st)
    } else {
        let l = lines[0];
        if l.len() > 0 && l[0] == '#' {
            let k = spec_skip_hashes(l, 0);
            let new_title = spec_trim(l.skip(k));
            if st.title.len() > 0 {
                let rest = spec_scan(
                    lines.drop_first(),
                    SpecSection { level: k as nat, title: new_title, body: Seq::empty() },
                );
                (seq![st] + rest.0, rest.1)
            } else {
                spec_scan(
                    lines.drop_first(),
                    SpecSection { level: k as nat, title: new_title, body: st.body },
                )
            }
        } else {
            spec_scan(
                lines.drop_first(),
                SpecSection { level: st.level, title: st.title, body: st.body + l + "\n"@ },
            )
        }
    }
}

/// The closing flush: the open section, when one is open.
pub open spec fn spec_flush(st: SpecSection) -> Seq<SpecSection> {
    if st.title.len() > 0 {
        seq![st]
    } else {
        Seq::empty()
    }
}

/// Scanning and then flushing is exactly what sectioning yields.
proof fn lemma_sections_scan(lines: Seq<Seq<char>>, st: SpecSection)
    ensures
        spec_sections(lines, st.level, st.title, st.body) == spec_scan(lines, st).0 + spec_flush(
            spec_scan(lines, st).1,
        ),
    decreases lines.len(),
{
    if lines.len() == 0 {
        assert(spec_sections(lines, st.level, st.title, st.body) =~= Seq::<
            SpecSection,
        >::empty() + spec_flush(st));
    } else {
        let l = lines[0];
        if l.len() > 0 && l[0] == '#' {
            let k = spec_skip_hashes(l, 0);
            let new_title = spec_trim(l.skip(k));
            if st.title.len() > 0 {
                let st2 = SpecSection { level: k as nat, title: new_title, body: Seq::empty() };
                lemma_sections_scan(lines.drop_first(), st2);
                let rest = spec_scan(lines.drop_first(), st2);
                assert(seq![st] + (rest.0 + spec_flush(rest.1)) =~= (seq![st] + rest.0)
                    + spec_flush(rest.1));
            } else {
                let st2 = SpecSection { level: k as nat, title: new_title, body: st.body };
                lemma_sections_scan(lines.drop_first(), st2);
            }
        } else {
            let st2 = SpecSection { level: st.level, title: st.title, body: st.body + l + "\n"@ };
            lemma_sections_scan(lines.drop_first(), st2);
        }
    }
}

/// Scanning a concatenation scans the first part, then the second from the
/// state the first left.
proof fn lemma_scan_concat(l1: Seq<Seq<char>>, l2: Seq<Seq<char>>, st: SpecSection)
    ensures
        spec_scan(l1 + l2, st).0 == spec_scan(l1, st).0 + spec_scan(l2, spec_scan(l1, st).1).0,
        spec_scan(l1 + l2, st).1 == spec_scan(l2, spec_scan(l1, st).1).1,
    decreases l1.len(),
{
    if l1.len() == 0 {
        assert(l1 + l2 =~= l2);
        assert(Seq::<SpecSection>::empty() + spec_scan(l2, st).0 =~= spec_scan(l2, st).0);
    } else {
        let l = l1[0];
        assert((l1 + l2)[0] == l);
        assert((l1 + l2).drop_first() =~= l1.drop_first() + l2);
        if l.len() > 0 && l[0] == '#' {
            let k = spec_skip_hashes(l, 0);
            let new_title = spec_trim(l.skip(k));
            if st.title.len() > 0 {
                let st2 = SpecSection { level: k as nat, title: new_title, body: Seq::empty() };
                lemma_scan_concat(l1.drop_first(), l2, st2);
                let m = spec_scan(l1.drop_first(), st2);
                let r = spec_scan(l2, m.1);
                assert(seq![st] + (m.0 + r.0) =~= (seq![st] + m.0) + r.0);
            } else {
                let st2 = SpecSection { level: k as nat, title: new_title, body: st.body };
                lemma_scan_concat(l1.drop_first(), l2, st2);
            }
        } else {
            let st2 = SpecSection { level: st.level, title: st.title, body: st.body + l + "\n"@ };
            lemma_scan_concat(l1.drop_first(), l2, st2);
        }
    }
}

/// Trimming the start never grows the text, and shrinks it when it opens
/// with whitespace.
proof fn lemma_trim_start_len(s: Seq<char>)
    ensures
        spec_trim_start(s).len() <= s.len(),
        s.len() > 0 && spec_is_ws(s[0]) ==> spec_trim_start(s).len() < s.len(),
    decreases s.len(),
{
    if s.len() > 0 && spec_is_ws(s[0]) {
        lemma_trim_start_len(s.drop_first());
    }
}

/// Trimming the end never grows the text, and shrinks it when it closes
/// with whitespace.
proof fn lemma_trim_end_len(s: Seq<char>)
    ensures
        spec_trim_end(s).len() <= s.len(),
        s.len() > 0 && spec_is_ws(s[s.len() - 1]) ==> spec_trim_end(s).len() < s.len(),
    decreases s.len(),
{
    if s.len() > 0 && spec_is_ws(s[s.len() - 1]) {
        lemma_trim_end_len(s.drop_last());
    }
}

/// A non-empty text that trimming leaves whole neither opens nor closes
/// with whitespace.
proof fn lemma_trim_stable_ends(s: Seq<char>)
    requires
        spec_trim(s) == s,
        s.len() > 0,
    ensures
        !spec_is_ws(s[0]),
        !spec_is_ws(s[s.len() - 1]),
{
    lemma_trim_start_len(s);
    lemma_trim_end_len(spec_trim_start(s));
    if spec_is_ws(s[0]) {
        assert(spec_trim(s).len() < s.len());
    }
    assert(spec_trim_start(s) == s);
    if spec_is_ws(s[s.len() - 1]) {
        assert(spec_trim_end(s).len() < s.len());
    }
}

/// What follows a line break in heading-free text is heading-free.
proof fn lemma_no_heading_suffix(b: Seq<char>, e: int)
    requires
        spec_no_heading_line(b),
        0 <= e < b.len(),
        b[e] == '\n',
    ensures
        spec_no_heading_line(b.skip(e + 1)),
{
    let brest = b.skip(e + 1);
    assert forall|i: int|
        0 <= i < brest.len() && (i == 0 || brest[i - 1] == '\n') implies #[trigger] brest[i]
        != '#' by {
        assert(brest[i] == b[e + 1 + i]);
        if i == 0 {
            assert(b[e] == '\n');
        } else {
            assert(b[e + i] == brest[i - 1]);
        }
    }
}

/// Scanning the lines of break-terminated body text only grows the open
/// section's body by that text.
#[verifier::rlimit(100)]
proof fn lemma_scan_body(b: Seq<char>, st: SpecSection)
    requires
        spec_no_cr(b),
        spec_no_heading_line(b),
    ensures
        spec_scan(spec_lines(b + "\n"@), st) == (
            Seq::<SpecSection>::empty(),
            SpecSection { level: st.level, title: st.title, body: st.body + b + "\n"@ },
        ),
    decreases b.len(),
{
    reveal_strlit("\n");
    let s = b + "\n"@;
    let e = spec_find_newline(s, 0);
    lemma_find_newline_bounds(s, 0);
    lemma_find_newline_finds(s, 0, b.len() as int);
    assert(s[b.len() as int] == '\n');
    if e == b.len() {
        lemma_find_newline_before(s, 0);
        assert forall|i: int| 0 <= i < b.len() implies #[trigger] b[i] != '\n' by {
            assert(s[i] == b[i]);
            assert(s[i] != '\n');
        }
        lemma_lines_single(b);
        assert(spec_lines(s) == seq![b]);
        assert(b.len() > 0 ==> b[0] != '#');
        let st2 = SpecSection { level: st.level, title: st.title, body: st.body + b + "\n"@ };
        assert(spec_lines(s).drop_first() =~= Seq::<Seq<char>>::empty());
        assert(spec_lines(s)[0] == b);
        assert(spec_scan(spec_lines(s), st) == spec_scan(spec_lines(s).drop_first(), st2));
        assert(spec_scan(spec_lines(s).drop_first(), st2) == (Seq::<SpecSection>::empty(), st2));
    } else {
        lemma_find_newline_char(s, 0);
        assert(s[e] == '\n');
        assert(b[e] == '\n');
        let b0 = b.take(e);
        let brest = b.skip(e + 1);
        assert(s.subrange(0, e) =~= b0);
        assert(spec_strip_cr(b0) =~= b0);
        lemma_lines_from_skip(s, e + 1);
        assert(s.skip(e + 1) =~= brest + "\n"@);
        assert(spec_lines(s) =~= seq![b0] + spec_lines(brest + "\n"@));
        assert(b0.len() > 0 ==> b0[0] != '#');
        let st2 = SpecSection { level: st.level, title: st.title, body: st.body + b0 + "\n"@ };
        lemma_no_heading_suffix(b, e);
        lemma_scan_body(brest, st2);
        assert(spec_lines(s)[0] == b0);
        assert(spec_lines(s).drop_first() =~= spec_lines(brest + "\n"@));
        let final_body = st.body + b0 + "\n"@ + brest + "\n"@;
        assert(final_body =~= st.body + b + "\n"@);
    }
}

/// An inline node fit for a lossless round trip: enabled, selecting all
/// targets, with a non-empty break-free trim-stable title and a trim-stable
/// body free of carriage returns whose lines never open with a heading
/// marker.
pub open spec fn spec_round_trip_item(item: InstructionItem) -> bool {
    match item {
        InstructionItem::Variant0 { title, body, disable, targets, .. } => {
            &&& !disable
            &&& match targets {
                InstructionItemVariant0Targets::Variant1(s) => s@ == "all"@,
                InstructionItemVariant0Targets::Variant0(_) => false,
            }
            &&& title@.len() > 0
            &&& spec_no_line_break(title@)
            &&& spec_trim(title@) == title@
            &&& spec_no_cr(body@)
            &&& spec_no_heading_line(body@)
            &&& spec_trim(body@) == body@
        },
        _ => false,
    }
}

/// The body text of an inline node.
pub open spec fn spec_inline_body(item: InstructionItem) -> Seq<char> {
    match item {
        InstructionItem::Variant0 { body, .. } => body@,
        _ => Seq::empty(),
    }
}

/// The section that scanning one rendered inline block leaves open.
pub open spec fn spec_expected_section(item: InstructionItem) -> SpecSection {
    SpecSection {
        level: 2,
        title: spec_item_title(item),
        body: "\n"@ + spec_inline_body(item) + "\n"@ + "\n"@,
    }
}

/// One heading line flushes the open section and opens the line's own.
proof fn lemma_scan_heading_line(l: Seq<char>, st: SpecSection)
    requires
        l.len() > 0,
        l[0] == '#',
        st.title.len() > 0,
    ensures
        spec_scan(seq![l], st) == (
            seq![st],
            SpecSection {
                level: spec_skip_hashes(l, 0) as nat,
                title: spec_trim(l.skip(spec_skip_hashes(l, 0))),
                body: Seq::empty(),
            },
        ),
{
    let la = seq![l];
    assert(la[0] == l);
    assert(la.drop_first() =~= Seq::<Seq<char>>::empty());
    let st1 = SpecSection {
        level: spec_skip_hashes(l, 0) as nat,
        title: spec_trim(l.skip(spec_skip_hashes(l, 0))),
        body: Seq::empty(),
    };
    assert(spec_scan(Seq::<Seq<char>>::empty(), st1) == (Seq::<SpecSection>::empty(), st1));
    assert(spec_scan(la, st) == (seq![st] + spec_scan(la.drop_first(), st1).0, spec_scan(
        la.drop_first(),
        st1,
    ).1));
    assert(seq![st] + Seq::<SpecSection>::empty() =~= seq![st]);
}

/// One heading line seen with no section open only moves the state.
proof fn lemma_scan_heading_line_unopened(l: Seq<char>, st: SpecSection)
    requires
        l.len() > 0,
        l[0] == '#',
        st.title.len() == 0,
    ensures
        spec_scan(seq![l], st) == (
            Seq::<SpecSection>::empty(),
            SpecSection {
                level: spec_skip_hashes(l, 0) as nat,
                title: spec_trim(l.skip(spec_skip_hashes(l, 0))),
                body: st.body,
            },
        ),
{
    let la = seq![l];
    assert(la[0] == l);
    assert(la.drop_first() =~= Seq::<Seq<char>>::empty());
    let st1 = SpecSection {
        level: spec_skip_hashes(l, 0) as nat,
        title: spec_trim(l.skip(spec_skip_hashes(l, 0))),
        body: st.body,
    };
    assert(spec_scan(Seq::<Seq<char>>::empty(), st1) == (Seq::<SpecSection>::empty(), st1));
    assert(spec_scan(la, st) == spec_scan(la.drop_first(), st1));
}

/// One plain line joins the open body.
proof fn lemma_scan_plain_line(l: Seq<char>, st: SpecSection)
    requires
        l.len() == 0 || l[0] != '#',
    ensures
        spec_scan(seq![l], st) == (
            Seq::<SpecSection>::empty(),
            SpecSection { level: st.level, title: st.title, body: st.body + l + "\n"@ },
        ),
{
    let la = seq![l];
    assert(la[0] == l);
    assert(la.drop_first() =~= Seq::<Seq<char>>::empty());
    let st1 = SpecSection { level: st.level, title: st.title, body: st.body + l + "\n"@ };
    assert(spec_scan(Seq::<Seq<char>>::empty(), st1) == (Seq::<SpecSection>::empty(), st1));
    assert(spec_scan(la, st) == spec_scan(la.drop_first(), st1));
}

/// Scanning one rendered inline block flushes the open section and leaves
/// the block's own section open.
#[verifier::rlimit(100)]
proof fn lemma_scan_block(
    item: InstructionItem,
    target: Targets,
    bodies: Seq<BodyFile>,
    st: SpecSection,
)
    requires
        spec_round_trip_item(item),
        st.title.len() > 0,
    ensures
        spec_scan(spec_lines(spec_render_item(item, 0, target, bodies)), st) == (
            seq![st],
            spec_expected_section(item),
        ),
{
    reveal_strlit(" ");
    reveal_strlit("\n");
    reveal_strlit("\n\n");
    reveal_strlit("all");
    let t = spec_item_title(item);
    let b = spec_inline_body(item);
    lemma_trim_stable_ends(t);
    let hline = spec_hashes(2) + " "@ + t;
    let s1 = hline + "\n"@;
    let s2 = "\n"@;
    let s3 = b + "\n"@;
    let s4 = "\n"@;
    let rendered = spec_render_item(item, 0, target, bodies);
    assert(rendered == spec_heading(0, t) + b + "\n\n"@);
    assert(rendered =~= s1 + (s2 + (s3 + s4)));
    assert(hline[0] == '#');
    assert(hline[1] == '#');
    assert(hline[2] == ' ');
    assert forall|i: int| 0 <= i < hline.len() implies #[trigger] hline[i] != '\n' by {
        if i >= 3 {
            assert(hline[i] == t[i - 3]);
        }
    }
    assert(hline[hline.len() - 1] == t[t.len() - 1]);
    lemma_lines_single(hline);
    lemma_lines_single(Seq::<char>::empty());
    assert(Seq::<char>::empty() + "\n"@ =~= "\n"@);
    lemma_lines_concat(s1, s2 + (s3 + s4));
    lemma_lines_concat(s2, s3 + s4);
    lemma_lines_concat(s3, s4);
    let la = seq![hline];
    let lb = seq![Seq::<char>::empty()];
    let ld = seq![Seq::<char>::empty()];
    let lc = spec_lines(s3);
    assert(spec_lines(rendered) == la + (lb + (lc + ld)));

    // The heading line opens a new section at depth two with the title.
    assert(spec_skip_hashes(hline, 2) == 2);
    assert(spec_skip_hashes(hline, 1) == 2);
    assert(spec_skip_hashes(hline, 0) == 2);
    let sub = hline.skip(2);
    assert(sub[0] == ' ');
    assert(sub.len() == t.len() + 1);
    assert forall|j: int| 0 <= j < 1 implies spec_is_ws(#[trigger] sub[j]) by {}
    assert(!spec_is_ws(sub[1]));
    lemma_trim_start_skip(sub, 1);
    assert(sub.skip(1) =~= t);
    assert(spec_trim_start(t) == t);
    assert(spec_trim(sub) == t);

    let st1 = SpecSection { level: 2, title: t, body: Seq::empty() };
    lemma_scan_heading_line(hline, st);
    assert(spec_scan(la, st) == (seq![st], st1));

    let st2 = SpecSection { level: 2, title: t, body: "\n"@ };
    lemma_scan_plain_line(Seq::<char>::empty(), st1);
    assert(Seq::<char>::empty() + Seq::<char>::empty() + "\n"@ =~= "\n"@);
    assert(spec_scan(lb, st1) == (Seq::<SpecSection>::empty(), st2));

    lemma_scan_body(b, st2);
    let st3 = SpecSection { level: 2, title: t, body: "\n"@ + b + "\n"@ };
    assert("\n"@ + (b + "\n"@) =~= "\n"@ + b + "\n"@);
    assert(spec_scan(lc, st2) == (Seq::<SpecSection>::empty(), st3));

    let st4 = SpecSection { level: 2, title: t, body: "\n"@ + b + "\n"@ + "\n"@ };
    lemma_scan_plain_line(Seq::<char>::empty(), st3);
    assert("\n"@ + b + "\n"@ + Seq::<char>::empty() + "\n"@ =~= "\n"@ + b + "\n"@ + "\n"@);
    assert(spec_scan(ld, st3) == (Seq::<SpecSection>::empty(), st4));

    lemma_scan_concat(la, lb + (lc + ld), st);
    lemma_scan_concat(lb, lc + ld, st1);
    lemma_scan_concat(lc, ld, st2);
    assert(spec_scan(spec_lines(rendered), st).1 == st4);
    assert(spec_scan(spec_lines(rendered), st).0 =~= seq![st]);
}

/// Scanning the rendering of a list of round-trippable nodes flushes the
/// open section, emits one section per node but the last, and leaves the
/// last node's section open.
proof fn lemma_scan_items(
    items: Seq<InstructionItem>,
    target: Targets,
    bodies: Seq<BodyFile>,
    st: SpecSection,
)
    requires
        forall|i: int| 0 <= i < items.len() ==> spec_round_trip_item(#[trigger] items[i]),
        st.title.len() > 0,
    ensures
        items.len() == 0 ==> spec_scan(spec_lines(spec_render_items(items, 0, target, bodies)), st)
            == (Seq::<SpecSection>::empty(), st),
        items.len() > 0 ==> spec_scan(spec_lines(spec_render_items(items, 0, target, bodies)), st)
            == (
            seq![st] + Seq::new((items.len() - 1) as nat, |j: int| spec_expected_section(items[j])),
            spec_expected_section(items[items.len() - 1]),
        ),
    decreases items.len(),
{
    reveal_strlit("\n\n");
    if items.len() == 0 {
        assert(spec_render_items(items, 0, target, bodies) == Seq::<char>::empty());
        assert(spec_lines(Seq::<char>::empty()) =~= Seq::<Seq<char>>::empty());
    } else {
        let block0 = spec_render_item(items[0], 0, target, bodies);
        let rest = spec_render_items(items.drop_first(), 0, target, bodies);
        assert(spec_render_items(items, 0, target, bodies) == block0 + rest);
        assert(block0.len() > 0 && block0[block0.len() - 1] == '\n') by {
            let t = spec_item_title(items[0]);
            let b = spec_inline_body(items[0]);
            assert(block0 == spec_heading(0, t) + b + "\n\n"@);
            assert(block0[block0.len() - 1] == "\n\n"@[1]);
        }
        lemma_lines_concat(block0, rest);
        lemma_scan_concat(spec_lines(block0), spec_lines(rest), st);
        lemma_scan_block(items[0], target, bodies, st);
        let sec0 = spec_expected_section(items[0]);
        assert(sec0.title.len() > 0);
        assert(forall|i: int|
            0 <= i < items.drop_first().len() ==> spec_round_trip_item(
                #[trigger] items.drop_first()[i],
            )) by {
            assert(forall|i: int|
                0 <= i < items.drop_first().len() ==> items.drop_first()[i] == items[i + 1]
                    && spec_round_trip_item(#[trigger] items.drop_first()[i]));
        }
        lemma_scan_items(items.drop_first(), target, bodies, sec0);
        if items.len() == 1 {
            assert(items.drop_first().len() == 0);
            assert(seq![st] + Seq::<SpecSection>::empty() =~= seq![st]);
            assert(seq![st] =~= seq![st] + Seq::new(0, |j: int| spec_expected_section(items[j])));
        } else {
            let n = items.len();
            let inner = Seq::new(
                (n - 2) as nat,
                |j: int| spec_expected_section(items.drop_first()[j]),
            );
            let outer = Seq::new((n - 1) as nat, |j: int| spec_expected_section(items[j]));
            assert(seq![st] + (seq![sec0] + inner) =~= seq![st] + outer) by {
                assert forall|j: int| 0 <= j < n - 2 implies inner[j] == outer[j + 1] by {
                    assert(items.drop_first()[j] == items[j + 1]);
                }
            }
            assert(items.drop_first()[items.drop_first().len() - 1] == items[n - 1]);
        }
    }
}

/// Dropping a document-title section keeps what the rest keeps.
proof fn lemma_kept_cons_shallow(first: SpecSection, rest: Seq<SpecSection>)
    requires
        first.level <= 1,
    ensures
        spec_kept(seq![first] + rest) == spec_kept(rest),
{
    assert((seq![first] + rest)[0] == first);
    assert((seq![first] + rest).drop_first() =~= rest);
}

/// A list of sections all below the document title is kept whole.
proof fn lemma_kept_all_deep(secs: Seq<SpecSection>)
    requires
        forall|i: int| 0 <= i < secs.len() ==> (#[trigger] secs[i]).level > 1,
    ensures
        spec_kept(secs) == secs,
    decreases secs.len(),
{
    if secs.len() > 0 {
        assert(forall|i: int|
            0 <= i < secs.drop_first().len() ==> secs.drop_first()[i] == secs[i + 1] && (
            #[trigger] secs.drop_first()[i]).level > 1);
        lemma_kept_all_deep(secs.drop_first());
        assert(seq![secs[0]] + secs.drop_first() =~= secs);
    }
}

/// Trimming strips exactly the breaks that rendering and scanning wrapped
/// around a trim-stable body.
proof fn lemma_trim_wrapped(b: Seq<char>)
    requires
        spec_trim(b) == b,
    ensures
        spec_trim("\n"@ + b + "\n"@ + "\n"@) == b,
{
    reveal_strlit("\n");
    let s = "\n"@ + b + "\n"@ + "\n"@;
    if b.len() == 0 {
        assert(forall|j: int| 0 <= j < s.len() ==> spec_is_ws(#[trigger] s[j]));
        lemma_trim_start_skip(s, s.len() as int);
        assert(s.skip(s.len() as int) =~= Seq::<char>::empty());
        assert(spec_trim_end(Seq::<char>::empty()) =~= Seq::<char>::empty());
        assert(b =~= Seq::<char>::empty());
    } else {
        lemma_trim_stable_ends(b);
        assert(spec_is_ws(s[0]));
        assert(s[1] == b[0]);
        lemma_trim_start_skip(s, 1);
        let tail = b + "\n"@ + "\n"@;
        assert(s.skip(1) =~= tail);
        assert forall|j: int| b.len() <= j < tail.len() implies spec_is_ws(#[trigger] tail[j]) by {
            assert(tail[j] == '\n');
        }
        assert(!spec_is_ws(tail[b.len() - 1]));
        lemma_trim_end_take(tail, b.len() as int);
        assert(tail.take(b.len() as int) =~= b);
    }
}

/// The round-trip law: rendering a document-title heading followed by a
/// tree of round-trippable inline nodes and parsing the text back recovers
/// every node's title and body text, in order. Nesting and the original
/// selector breadth are not recovered: the inverse is lossy by design.
pub proof fn lemma_render_parse_round_trip(
    items: Seq<InstructionItem>,
    header_title: Seq<char>,
    target: Targets,
    bodies: Seq<BodyFile>,
)
    requires
        forall|i: int| 0 <= i < items.len() ==> spec_round_trip_item(#[trigger] items[i]),
        header_title.len() > 0,
        spec_no_line_break(header_title),
        spec_trim(header_title) == header_title,
    ensures
        ({
            let content = "# "@ + header_title + "\n\n"@ + spec_render_items(
                items,
                0,
                target,
                bodies,
            );
            let kept = spec_kept_sections(content);
            &&& kept.len() == items.len()
            &&& forall|i: int|
                0 <= i < items.len() ==> (#[trigger] kept[i]).title == spec_item_title(items[i])
                    && spec_trim(kept[i].body) == spec_inline_body(items[i])
        }),
{
    reveal_strlit("# ");
    reveal_strlit(" ");
    reveal_strlit("\n");
    reveal_strlit("\n\n");
    let ht = header_title;
    lemma_trim_stable_ends(ht);
    let hline = "# "@ + ht;
    let s1 = hline + "\n"@;
    let s2 = "\n"@;
    let render = spec_render_items(items, 0, target, bodies);
    let content = "# "@ + ht + "\n\n"@ + render;
    assert(content =~= s1 + (s2 + render));
    assert(hline[0] == '#');
    assert(hline[1] == ' ');
    assert forall|i: int| 0 <= i < hline.len() implies #[trigger] hline[i] != '\n' by {
        if i >= 2 {
            assert(hline[i] == ht[i - 2]);
        }
    }
    assert(hline[hline.len() - 1] == ht[ht.len() - 1]);
    lemma_lines_single(hline);
    lemma_lines_single(Seq::<char>::empty());
    assert(Seq::<char>::empty() + "\n"@ =~= "\n"@);
    lemma_lines_concat(s1, s2 + render);
    lemma_lines_concat(s2, render);
    let la = seq![hline];
    let lb = seq![Seq::<char>::empty()];
    let lrest = spec_lines(render);
    assert(spec_lines(content) == la + (lb + lrest));

    let st0 = SpecSection { level: 0, title: Seq::empty(), body: Seq::empty() };
    assert(spec_skip_hashes(hline, 1) == 1);
    assert(spec_skip_hashes(hline, 0) == 1);
    let sub = hline.skip(1);
    assert(sub[0] == ' ');
    assert(!spec_is_ws(sub[1]));
    assert(forall|j: int| 0 <= j < 1 ==> spec_is_ws(#[trigger] sub[j]));
    lemma_trim_start_skip(sub, 1);
    assert(sub.skip(1) =~= ht);
    assert(spec_trim_start(ht) == ht);
    assert(spec_trim(sub) == ht);
    let st1 = SpecSection { level: 1, title: ht, body: Seq::empty() };
    lemma_scan_heading_line_unopened(hline, st0);
    assert(spec_scan(la, st0) == (Seq::<SpecSection>::empty(), st1));

    let st2 = SpecSection { level: 1, title: ht, body: "\n"@ };
    lemma_scan_plain_line(Seq::<char>::empty(), st1);
    assert(Seq::<char>::empty() + Seq::<char>::empty() + "\n"@ =~= "\n"@);
    assert(spec_scan(lb, st1) == (Seq::<SpecSection>::empty(), st2));

    lemma_scan_concat(la, lb + lrest, st0);
    lemma_scan_concat(lb, lrest, st1);
    lemma_scan_items(items, target, bodies, st2);
    lemma_sections_scan(spec_lines(content), st0);
    assert(spec_parse_sections(content) == spec_sections(spec_lines(content), 0, Seq::empty(),
        Seq::empty()));

    let n = items.len() as int;
    if n == 0 {
        assert(spec_scan(spec_lines(content), st0).0 =~= Seq::<SpecSection>::empty());
        assert(spec_scan(spec_lines(content), st0).1 == st2);
        assert(spec_parse_sections(content) =~= seq![st2]);
        lemma_kept_cons_shallow(st2, Seq::<SpecSection>::empty());
        assert(seq![st2] + Seq::<SpecSection>::empty() =~= seq![st2]);
        assert(spec_kept_sections(content) =~= Seq::<SpecSection>::empty());
    } else {
        let expected = Seq::new(items.len(), |j: int| spec_expected_section(items[j]));
        let scanned = spec_scan(spec_lines(content), st0);
        assert(scanned.0 =~= seq![st2] + expected.take(n - 1));
        assert(scanned.1 == spec_expected_section(items[n - 1]));
        assert(spec_flush(scanned.1) == seq![spec_expected_section(items[n - 1])]);
        assert(spec_parse_sections(content) =~= seq![st2] + expected) by {
            assert(expected.take(n - 1).push(expected[n - 1]) =~= expected);
        }
        lemma_kept_cons_shallow(st2, expected);
        assert(forall|i: int| 0 <= i < expected.len() ==> (#[trigger] expected[i]).level > 1);
        lemma_kept_all_deep(expected);
        assert(spec_kept_sections(content) == expected);
        assert forall|i: int|
            0 <= i < items.len() implies (#[trigger] spec_kept_sections(content)[i]).title
            == spec_item_title(items[i]) && spec_trim(spec_kept_sections(content)[i].body)
            == spec_inline_body(items[i]) by {
            assert(expected[i] == spec_expected_section(items[i]));
            lemma_trim_wrapped(spec_inline_body(items[i]));
        }
    }
}

} // verus!
