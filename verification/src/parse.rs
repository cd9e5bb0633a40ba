//! The parsing engine: the lossy, best-effort inverse of rendering. Markdown
//! headings are split back into a flat list of inline instructions.

use vstd::prelude::*;
use crate::model::{InstructionItem, InstructionItemVariant0Targets, Targets};
use crate::text::{is_ws, spec_is_ws};
use vstd::string::StrSliceExecFns;
use vstd::string::StringExecFns;

verus! {

broadcast use vstd::string::group_string_axioms;

/// Index of the first line break at or after `i`, or the length when none is
/// left.
pub open spec fn spec_find_newline(s: Seq<char>, i: int) -> int
    decreases s.len() - i,
{
    if i < 0 {
        i
    } else if i < s.len() {
        if s[i] == '\n' {
            i
        } else {
            spec_find_newline(s, i + 1)
        }
    } else {
        s.len() as int
    }
}

/// Drops one carriage return left at the end of a line split on `'\n'`.
pub open spec fn spec_strip_cr(l: Seq<char>) -> Seq<char> {
    if l.len() > 0 && l[l.len() - 1] == '\r' {
        l.drop_last()
    } else {
        l
    }
}

/// The lines of `s` from position `i` on: split at `'\n'`, a final line
/// break optional, carriage returns before a line break dropped.
pub open spec fn spec_lines_from(s: Seq<char>, i: int) -> Seq<Seq<char>>
    decreases s.len() - i,
    via spec_lines_from_decreases
{
    if i < 0 || i >= s.len() {
        Seq::empty()
    } else {
        let e = spec_find_newline(s, i);
        if e == s.len() {
            seq![s.subrange(i, e)]
        } else {
            seq![spec_strip_cr(s.subrange(i, e))] + spec_lines_from(s, e + 1)
        }
    }
}

#[via_fn]
proof fn spec_lines_from_decreases(s: Seq<char>, i: int) {
    if 0 <= i < s.len() {
        lemma_find_newline_bounds(s, i);
    }
}

/// A found line break lies between the start of the search and the end of
/// the text.
pub proof fn lemma_find_newline_bounds(s: Seq<char>, i: int)
    requires
        0 <= i <= s.len(),
    ensures
        i <= spec_find_newline(s, i) <= s.len(),
    decreases s.len() - i,
{
    if i < s.len() && s[i] != '\n' {
        lemma_find_newline_bounds(s, i + 1);
    }
}

/// The lines of a whole text.
pub open spec fn spec_lines(s: Seq<char>) -> Seq<Seq<char>> {
    spec_lines_from(s, 0)
}

/// Index of the first character of `l` at or after `i` that is not a heading
/// marker.
pub open spec fn spec_skip_hashes(l: Seq<char>, i: int) -> int
    decreases l.len() - i,
{
    if i < 0 {
        i
    } else if i < l.len() && l[i] == '#' {
        spec_skip_hashes(l, i + 1)
    } else {
        i
    }
}

/// `s` without leading whitespace.
pub open spec fn spec_trim_start(s: Seq<char>) -> Seq<char>
    decreases s.len(),
{
    if s.len() > 0 && spec_is_ws(s[0]) {
        spec_trim_start(s.drop_first())
    } else {
        s
    }
}

/// `s` without trailing whitespace.
pub open spec fn spec_trim_end(s: Seq<char>) -> Seq<char>
    decreases s.len(),
{
    if s.len() > 0 && spec_is_ws(s[s.len() - 1]) {
        spec_trim_end(s.drop_last())
    } else {
        s
    }
}

/// `s` without leading and trailing whitespace.
pub open spec fn spec_trim(s: Seq<char>) -> Seq<char> {
    spec_trim_end(spec_trim_start(s))
}

/// One accumulated section: the heading depth, the heading text, and the body
/// lines gathered under it.
pub struct SpecSection {
    pub level: nat,
    pub title: Seq<char>,
    pub body: Seq<char>,
}

/// The sections that scanning `lines` yields, starting from a partially
/// accumulated section. A heading line flushes the accumulated section when
/// one is open (its title is non-empty); any other line joins the body. The
/// body is carried over, not cleared, while no section is open.
pub open spec fn spec_sections(
    lines: Seq<Seq<char>>,
    cur_level: nat,
    cur_title: Seq<char>,
    cur_body: Seq<char>,
) -> Seq<SpecSection>
    decreases lines.len(),
{
    if lines.len() == 0 {
        if cur_title.len() > 0 {
            seq![SpecSection { level: cur_level, title: cur_title, body: cur_body }]
        } else {
            Seq::empty()
        }
    } else {
        let l = lines[0];
        if l.len() > 0 && l[0] == '#' {
            let k = spec_skip_hashes(l, 0);
            let new_title = spec_trim(l.skip(k));
            if cur_title.len() > 0 {
                seq![SpecSection { level: cur_level, title: cur_title, body: cur_body }]
                    + spec_sections(lines.drop_first(), k as nat, new_title, Seq::empty())
            } else {
                spec_sections(lines.drop_first(), k as nat, new_title, cur_body)
            }
        } else {
            spec_sections(lines.drop_first(), cur_level, cur_title, cur_body + l + "\n"@)
        }
    }
}

/// All sections of a text.
pub open spec fn spec_parse_sections(content: Seq<char>) -> Seq<SpecSection> {
    spec_sections(spec_lines(content), 0, Seq::empty(), Seq::empty())
}

/// The sections below the document title: those deeper than one heading
/// marker.
pub open spec fn spec_kept(secs: Seq<SpecSection>) -> Seq<SpecSection>
    decreases secs.len(),
{
    if secs.len() == 0 {
        Seq::empty()
    } else if secs[0].level > 1 {
        seq![secs[0]] + spec_kept(secs.drop_first())
    } else {
        spec_kept(secs.drop_first())
    }
}

/// The sections a parse of `content` turns into instructions.
pub open spec fn spec_kept_sections(content: Seq<char>) -> Seq<SpecSection> {
    spec_kept(spec_parse_sections(content))
}

/// What one parsed instruction holds: an inline node carrying the section's
/// title, its trimmed body, no description, not disabled, selecting exactly
/// the importing target.
pub open spec fn spec_instruction_matches_section(
    item: InstructionItem,
    sec: SpecSection,
    target: Targets,
) -> bool {
    match item {
        InstructionItem::Variant0 { title, body, description, disable, targets } => {
            &&& title@ == sec.title
            &&& body@ == spec_trim(sec.body)
            &&& description is None
            &&& !disable
            &&& match targets {
                InstructionItemVariant0Targets::Variant0(list) => list@ == seq![target],
                InstructionItemVariant0Targets::Variant1(_) => false,
            }
        },
        _ => false,
    }
}

/// Keeping one more section extends the kept list by that section when it is
/// deep enough.
proof fn lemma_kept_take_step(secs: Seq<SpecSection>, i: int)
    requires
        0 <= i < secs.len(),
    ensures
        spec_kept(secs.take(i + 1)) == if secs[i].level > 1 {
            spec_kept(secs.take(i)).push(secs[i])
        } else {
            spec_kept(secs.take(i))
        },
    decreases i,
{
    if i == 0 {
        assert(secs.take(1)[0] == secs[0]);
        assert(secs.take(0) =~= Seq::<SpecSection>::empty());
        assert(secs.take(1).drop_first() =~= Seq::<SpecSection>::empty());
        if secs[0].level > 1 {
            assert(seq![secs[0]] + Seq::<SpecSection>::empty() =~= spec_kept(
                secs.take(0),
            ).push(secs[0]));
        }
    } else {
        lemma_kept_take_step(secs.drop_first(), i - 1);
        assert(secs.take(i + 1)[0] == secs[0]);
        assert(secs.take(i)[0] == secs[0]);
        assert(secs.take(i + 1).drop_first() =~= secs.drop_first().take(i));
        assert(secs.take(i).drop_first() =~= secs.drop_first().take(i - 1));
        assert(secs.drop_first()[i - 1] == secs[i]);
        if secs[0].level > 1 {
            if secs[i].level > 1 {
                assert(seq![secs[0]] + spec_kept(secs.drop_first().take(i - 1)).push(secs[i])
                    =~= (seq![secs[0]] + spec_kept(secs.drop_first().take(i - 1))).push(secs[i]));
            }
        }
    }
}

/// Finds the first line break at or after `from`.
#[verifier::loop_isolation(false)]
fn find_newline_at(s: &str, from: usize) -> (r: usize)
    requires
        from <= s@.len(),
    ensures
        r == spec_find_newline(s@, from as int),
        from <= r <= s@.len(),
        r < s@.len() ==> s@[r as int] == '\n',
{
    let n = s.unicode_len();
    let mut i = from;
    while i < n
        invariant
            from <= i <= n,
            spec_find_newline(s@, from as int) == spec_find_newline(s@, i as int),
        decreases n - i,
    {
        if s.get_char(i) == '\n' {
            return i;
        }
        i += 1;
    }
    i
}

/// Splits `s` into its lines, each given as a character range of `s` with the
/// line break and any carriage return before it left out.
#[verifier::loop_isolation(false)]
fn split_lines(s: &str) -> (r: Vec<(usize, usize)>)
    ensures
        r@.len() == spec_lines(s@).len(),
        forall|i: int|
            0 <= i < r@.len() ==> (#[trigger] r@[i]).0 <= r@[i].1 && r@[i].1 <= s@.len(),
        forall|i: int|
            0 <= i < r@.len() ==> s@.subrange(
                (#[trigger] r@[i]).0 as int,
                r@[i].1 as int,
            ) == spec_lines(s@)[i],
{
    let n = s.unicode_len();
    let mut r: Vec<(usize, usize)> = Vec::new();
    let mut st: usize = 0;
    let ghost done: Seq<Seq<char>> = Seq::empty();
    proof {
        assert(Seq::<Seq<char>>::empty() + spec_lines_from(s@, 0) =~= spec_lines_from(s@, 0));
    }
    while st < n
        invariant
            st <= n,
            n == s@.len(),
            r@.len() == done.len(),
            forall|i: int|
                0 <= i < r@.len() ==> (#[trigger] r@[i]).0 <= r@[i].1 && r@[i].1 <= s@.len(),
            forall|i: int|
                0 <= i < r@.len() ==> s@.subrange(
                    (#[trigger] r@[i]).0 as int,
                    r@[i].1 as int,
                ) == done[i],
            done + spec_lines_from(s@, st as int) == spec_lines(s@),
        decreases n - st,
    {
        let e = find_newline_at(s, st);
        let stripped_end = if e < n && e > st && s.get_char(e - 1) == '\r' {
            e - 1
        } else {
            e
        };
        proof {
            if e < n {
                assert(spec_strip_cr(s@.subrange(st as int, e as int)) =~= s@.subrange(
                    st as int,
                    stripped_end as int,
                ));
            }
        }
        let ghost prev = done;
        let ghost prev_r = r@;
        r.push((st, stripped_end));
        if e == n {
            proof {
                assert(spec_lines_from(s@, st as int) =~= seq![s@.subrange(st as int, e as int)]);
                assert(prev + spec_lines_from(s@, st as int) =~= prev.push(
                    s@.subrange(st as int, stripped_end as int),
                ));
                assert(prev.push(s@.subrange(st as int, stripped_end as int))
                    + spec_lines_from(s@, n as int) =~= prev.push(
                    s@.subrange(st as int, stripped_end as int),
                ));
                done = prev.push(s@.subrange(st as int, stripped_end as int));
            }
            st = n;
        } else {
            proof {
                assert(spec_lines_from(s@, st as int) =~= seq![
                    s@.subrange(st as int, stripped_end as int),
                ] + spec_lines_from(s@, e as int + 1));
                assert(prev + (seq![s@.subrange(st as int, stripped_end as int)]
                    + spec_lines_from(s@, e as int + 1)) =~= prev.push(
                    s@.subrange(st as int, stripped_end as int),
                ) + spec_lines_from(s@, e as int + 1));
                done = prev.push(s@.subrange(st as int, stripped_end as int));
            }
            st = e + 1;
        }
        proof {
            assert(r@.len() == done.len());
            assert forall|i: int|
                0 <= i < r@.len() implies (#[trigger] r@[i]).0 <= r@[i].1 && r@[i].1
                <= s@.len() by {
                if i < r@.len() - 1 {
                    assert(r@[i] == prev_r[i]);
                }
            }
            assert forall|i: int|
                0 <= i < r@.len() implies s@.subrange(
                    (#[trigger] r@[i]).0 as int,
                    r@[i].1 as int,
                ) == done[i] by {
                if i < r@.len() - 1 {
                    assert(r@[i] == prev_r[i]);
                    assert(done[i] == prev[i]);
                } else {
                    assert(done[i] == s@.subrange(r@[i].0 as int, r@[i].1 as int));
                }
            }
        }
    }
    proof {
        assert(spec_lines_from(s@, st as int) =~= Seq::<Seq<char>>::empty());
        assert(done + Seq::<Seq<char>>::empty() =~= done);
    }
    r
}

/// Leading whitespace ends at the first non-whitespace character.
pub proof fn lemma_trim_start_skip(s: Seq<char>, i: int)
    requires
        0 <= i <= s.len(),
        forall|j: int| 0 <= j < i ==> spec_is_ws(#[trigger] s[j]),
        i == s.len() || !spec_is_ws(s[i]),
    ensures
        spec_trim_start(s) == s.skip(i),
    decreases i,
{
    if i == 0 {
        assert(s.skip(0) =~= s);
    } else {
        lemma_trim_start_skip(s.drop_first(), i - 1);
        assert(s.drop_first().skip(i - 1) =~= s.skip(i));
    }
}

/// Trailing whitespace starts after the last non-whitespace character.
pub proof fn lemma_trim_end_take(s: Seq<char>, i: int)
    requires
        0 <= i <= s.len(),
        forall|j: int| i <= j < s.len() ==> spec_is_ws(#[trigger] s[j]),
        i == 0 || !spec_is_ws(s[i - 1]),
    ensures
        spec_trim_end(s) == s.take(i),
    decreases s.len() - i,
{
    if i == s.len() {
        assert(s.take(i) =~= s);
    } else {
        lemma_trim_end_take(s.drop_last(), i);
        assert(s.drop_last().take(i) =~= s.take(i));
    }
}

/// Copies `s` without its leading and trailing whitespace.
#[verifier::loop_isolation(false)]
pub fn trim_string(s: &String) -> (r: String)
    ensures
        r@ == spec_trim(s@),
{
    let sl = s.as_str();
    let n = sl.unicode_len();
    let mut a: usize = 0;
    while a < n && is_ws(sl.get_char(a))
        invariant
            a <= n,
            n == s@.len(),
            forall|j: int| 0 <= j < a ==> spec_is_ws(#[trigger] s@[j]),
        decreases n - a,
    {
        a += 1;
    }
    if a == n {
        proof {
            lemma_trim_start_skip(s@, n as int);
            assert(s@.skip(n as int) =~= Seq::<char>::empty());
            assert(spec_trim_end(Seq::<char>::empty()) =~= Seq::<char>::empty());
        }
        return String::new();
    }
    let mut b: usize = n;
    while b > a && is_ws(sl.get_char(b - 1))
        invariant
            a <= b <= n,
            n == s@.len(),
            forall|j: int| b <= j < n ==> spec_is_ws(#[trigger] s@[j]),
        decreases b,
    {
        b -= 1;
    }
    proof {
        lemma_trim_start_skip(s@, a as int);
        let tail = s@.skip(a as int);
        lemma_trim_end_take(tail, b - a);
        assert(tail.take(b - a) =~= s@.subrange(a as int, b as int));
    }
    let piece = sl.substring_char(a, b);
    piece.to_owned()
}

/// One flushed section while parsing.
pub struct Section {
    pub level: usize,
    pub title: String,
    pub body: String,
}

impl View for Section {
    type V = SpecSection;

    open spec fn view(&self) -> SpecSection {
        SpecSection { level: self.level as nat, title: self.title@, body: self.body@ }
    }
}

/// Counts the heading markers that open the line `[st, end)` of `s`.
#[verifier::loop_isolation(false)]
fn count_hashes(s: &str, st: usize, end: usize) -> (k: usize)
    requires
        st <= end <= s@.len(),
    ensures
        k == spec_skip_hashes(s@.subrange(st as int, end as int), 0),
        k <= end - st,
{
    let ghost line = s@.subrange(st as int, end as int);
    let mut i = st;
    while i < end && s.get_char(i) == '#'
        invariant
            st <= i <= end,
            spec_skip_hashes(line, 0) == spec_skip_hashes(line, i - st),
        decreases end - i,
    {
        i += 1;
    }
    i - st
}

/// Extracts the heading text of the line `[st, end)` of `s`: everything after
/// the `k` leading markers, trimmed.
#[verifier::loop_isolation(false)]
fn heading_title(s: &str, st: usize, end: usize, k: usize) -> (r: String)
    requires
        st <= end <= s@.len(),
        k <= end - st,
    ensures
        r@ == spec_trim(s@.subrange(st as int, end as int).skip(k as int)),
{
    let ghost line = s@.subrange(st as int, end as int);
    let ghost sub = line.skip(k as int);
    proof {
        assert(sub =~= s@.subrange(st + k, end as int));
    }
    let mut a: usize = st + k;
    while a < end && is_ws(s.get_char(a))
        invariant
            st + k <= a <= end,
            forall|j: int| st + k <= j < a ==> spec_is_ws(#[trigger] s@[j]),
        decreases end - a,
    {
        a += 1;
    }
    if a == end {
        proof {
            lemma_trim_start_skip(sub, sub.len() as int);
            assert(sub.skip(sub.len() as int) =~= Seq::<char>::empty());
            assert(spec_trim_end(Seq::<char>::empty()) =~= Seq::<char>::empty());
        }
        return String::new();
    }
    let mut b: usize = end;
    while b > a && is_ws(s.get_char(b - 1))
        invariant
            a <= b <= end,
            forall|j: int| b <= j < end ==> spec_is_ws(#[trigger] s@[j]),
        decreases b,
    {
        b -= 1;
    }
    proof {
        assert(forall|j: int| 0 <= j < a - (st + k) ==> spec_is_ws(#[trigger] sub[j]));
        lemma_trim_start_skip(sub, a - (st + k));
        let tail = sub.skip(a - (st + k));
        assert(tail =~= s@.subrange(a as int, end as int));
        lemma_trim_end_take(tail, b - a);
        assert(tail.take(b - a) =~= s@.subrange(a as int, b as int));
    }
    let piece = s.substring_char(a, b);
    piece.to_owned()
}

/// Splits markdown into flat inline instructions, one per section deeper than
/// the document title, each selecting exactly the importing target. Fails
/// exactly when no such section exists.
#[verifier::loop_isolation(false)]
pub fn parse_markdown_instructions(content: &str, target: Targets) -> (r: Result<
    Vec<InstructionItem>,
    String,
>)
    ensures
        ({
            let kept = spec_kept_sections(content@);
            match r {
                Ok(items) => kept.len() > 0 && items@.len() == kept.len() && forall|i: int|
                    0 <= i < kept.len() ==> spec_instruction_matches_section(
                        #[trigger] items@[i],
                        kept[i],
                        target,
                    ),
                Err(e) => kept.len() == 0 && e@
                    == "No valid instructions found in the format file"@,
            }
        }),
{
    let lines = split_lines(content);
    let ghost lines_spec = spec_lines(content@);

    let mut secs: Vec<Section> = Vec::new();
    let mut cur_level: usize = 0;
    let mut cur_title: String = String::new();
    let mut cur_body: String = String::new();

    let ghost all_secs = spec_parse_sections(content@);
    let mut li: usize = 0;
    proof {
        assert(lines_spec.skip(0) =~= lines_spec);
        assert(secs@.map_values(|x: Section| x@) + spec_sections(
            lines_spec,
            0,
            Seq::empty(),
            Seq::empty(),
        ) =~= all_secs);
    }
    while li < lines.len()
        invariant
            li <= lines@.len(),
            secs@.map_values(|x: Section| x@) + spec_sections(
                lines_spec.skip(li as int),
                cur_level as nat,
                cur_title@,
                cur_body@,
            ) == all_secs,
        decreases lines@.len() - li,
    {
        let (st, end) = (lines[li].0, lines[li].1);
        let ghost l = lines_spec[li as int];
        proof {
            assert(l == content@.subrange(st as int, end as int));
            assert(lines_spec.skip(li as int)[0] == l);
            assert(lines_spec.skip(li as int).drop_first() =~= lines_spec.skip(li as int + 1));
        }
        let ghost pre_secs = secs@.map_values(|x: Section| x@);
        if end > st && content.get_char(st) == '#' {
            let k = count_hashes(content, st, end);
            let new_title = heading_title(content, st, end, k);
            if !cur_title.as_str().is_empty() {
                let flushed = Section { level: cur_level, title: cur_title, body: cur_body };
                secs.push(flushed);
                cur_body = String::new();
                proof {
                    assert(secs@.map_values(|x: Section| x@) =~= pre_secs.push(
                        SpecSection {
                            level: cur_level as nat,
                            title: flushed.title@,
                            body: flushed.body@,
                        },
                    ));
                    assert(pre_secs + (seq![
                        SpecSection {
                            level: cur_level as nat,
                            title: flushed.title@,
                            body: flushed.body@,
                        },
                    ] + spec_sections(
                        lines_spec.skip(li as int + 1),
                        k as nat,
                        new_title@,
                        Seq::empty(),
                    )) =~= secs@.map_values(|x: Section| x@) + spec_sections(
                        lines_spec.skip(li as int + 1),
                        k as nat,
                        new_title@,
                        Seq::empty(),
                    ));
                }
            }
            cur_level = k;
            cur_title = new_title;
        } else {
            cur_body.append(content.substring_char(st, end));
            cur_body.append("\n");
        }
        li += 1;
    }
    proof {
        assert(lines_spec.skip(lines_spec.len() as int) =~= Seq::<Seq<char>>::empty());
    }
    if !cur_title.as_str().is_empty() {
        let flushed = Section { level: cur_level, title: cur_title, body: cur_body };
        let ghost pre_secs = secs@.map_values(|x: Section| x@);
        secs.push(flushed);
        proof {
            assert(secs@.map_values(|x: Section| x@) =~= pre_secs + seq![
                SpecSection {
                    level: flushed.level as nat,
                    title: flushed.title@,
                    body: flushed.body@,
                },
            ]);
        }
    } else {
        proof {
            assert(secs@.map_values(|x: Section| x@) + Seq::<SpecSection>::empty()
                =~= secs@.map_values(|x: Section| x@));
        }
    }
    proof {
        assert(secs@.map_values(|x: Section| x@) =~= all_secs);
    }

    let ghost kept = spec_kept_sections(content@);
    let mut items: Vec<InstructionItem> = Vec::new();
    let mut si: usize = 0;
    proof {
        assert(all_secs.take(0) =~= Seq::<SpecSection>::empty());
    }
    while si < secs.len()
        invariant
            si <= secs@.len(),
            secs@.map_values(|x: Section| x@) == all_secs,
            items@.len() == spec_kept(all_secs.take(si as int)).len(),
            forall|i: int|
                0 <= i < items@.len() ==> spec_instruction_matches_section(
                    #[trigger] items@[i],
                    spec_kept(all_secs.take(si as int))[i],
                    target,
                ),
        decreases secs@.len() - si,
    {
        proof {
            lemma_kept_take_step(all_secs, si as int);
            assert(all_secs[si as int] == secs@[si as int]@);
        }
        if secs[si].level > 1 {
            let sec = &secs[si];
            let body = trim_string(&sec.body);
            let mut sel: Vec<Targets> = Vec::new();
            sel.push(target);
            proof {
                assert(sel@ =~= seq![target]);
            }
            let item = InstructionItem::Variant0 {
                title: sec.title.clone(),
                body,
                description: None,
                disable: false,
                targets: InstructionItemVariant0Targets::Variant0(sel),
            };
            items.push(item);
        }
        si += 1;
    }
    proof {
        assert(all_secs.take(secs@.len() as int) =~= all_secs);
    }
    if items.len() == 0 {
        Err("No valid instructions found in the format file".to_owned())
    } else {
        Ok(items)
    }
}

} // verus!
