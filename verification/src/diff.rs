//! The diff engine: the expected artifact against what the disk holds, as a
//! line diff with one leading marker per line class.

use vstd::prelude::*;
use crate::formats::FormatResult;
use crate::reconcile::{spec_disk_lookup, DiskEntry, DiskState};
use vstd::string::StringExecFns;

verus! {

broadcast use vstd::string::group_string_axioms;

/// The line changes that turn `current` into `expected`, in order: each is a
/// class — 0 removed, 1 added, 2 equal — and one line of text.
pub uninterp spec fn diff_changes(current: Seq<char>, expected: Seq<char>) -> Seq<(int, Seq<char>)>;

/// Relies on similar::TextDiff::from_lines and Change::tag: the line diff of
/// the two texts, each change shown with its text and its class. The change
/// text is the line, a line break supplied when the source had none.
#[verifier::external_body]
fn diff_lines(current: &str, expected: &str) -> (r: Vec<(u8, String)>)
    ensures
        r@.map_values(|p: (u8, String)| (p.0 as int, p.1@)) == diff_changes(current@, expected@),
{
    let diff = similar::TextDiff::from_lines(current, expected);
    let mut out = Vec::new();
    for change in diff.iter_all_changes() {
        let tag: u8 = match change.tag() {
            similar::ChangeTag::Delete => 0,
            similar::ChangeTag::Insert => 1,
            similar::ChangeTag::Equal => 2,
        };
        out.push((tag, format!("{}", change)));
    }
    out
}

/// One rendered change: a removed line in red with a minus, an added line in
/// green with a plus, an equal line behind a space.
pub open spec fn spec_render_change(c: (int, Seq<char>)) -> Seq<char> {
    if c.0 == 0 {
        "\x1b[31m-"@ + c.1 + "\x1b[0m"@
    } else if c.0 == 1 {
        "\x1b[32m+"@ + c.1 + "\x1b[0m"@
    } else {
        " "@ + c.1
    }
}

/// The rendered change list, in order.
pub open spec fn spec_render_changes(changes: Seq<(int, Seq<char>)>) -> Seq<char>
    decreases changes.len(),
{
    if changes.len() == 0 {
        Seq::empty()
    } else {
        spec_render_change(changes[0]) + spec_render_changes(changes.drop_first())
    }
}

/// One more change extends the rendering by that change's rendering.
proof fn lemma_render_changes_take_step(changes: Seq<(int, Seq<char>)>, i: int)
    requires
        0 <= i < changes.len(),
    ensures
        spec_render_changes(changes.take(i + 1)) == spec_render_changes(changes.take(i))
            + spec_render_change(changes[i]),
    decreases i,
{
    if i == 0 {
        assert(changes.take(1)[0] == changes[0]);
        assert(changes.take(1).drop_first() =~= Seq::<(int, Seq<char>)>::empty());
        assert(changes.take(0) =~= Seq::<(int, Seq<char>)>::empty());
        assert(spec_render_change(changes[0]) + Seq::<char>::empty() =~= Seq::<char>::empty()
            + spec_render_change(changes[0]));
    } else {
        lemma_render_changes_take_step(changes.drop_first(), i - 1);
        assert(changes.take(i + 1)[0] == changes[0]);
        assert(changes.take(i)[0] == changes[0]);
        assert(changes.take(i + 1).drop_first() =~= changes.drop_first().take(i));
        assert(changes.take(i).drop_first() =~= changes.drop_first().take(i - 1));
        assert(changes.drop_first()[i - 1] == changes[i]);
        assert(spec_render_change(changes[0]) + (spec_render_changes(
            changes.drop_first().take(i - 1),
        ) + spec_render_change(changes[i])) =~= (spec_render_change(changes[0])
            + spec_render_changes(changes.drop_first().take(i - 1))) + spec_render_change(
            changes[i],
        ));
    }
}

/// Renders the line diff that turns `current` into `expected`, one marked
/// line per change.
#[verifier::loop_isolation(false)]
pub fn make_diff(current: &str, expected: &str) -> (r: String)
    ensures
        r@ == spec_render_changes(diff_changes(current@, expected@)),
{
    let changes = diff_lines(current, expected);
    let ghost cviews = changes@.map_values(|p: (u8, String)| (p.0 as int, p.1@));
    let mut out = String::new();
    let mut i: usize = 0;
    proof {
        assert(out@ =~= spec_render_changes(cviews.take(0)));
    }
    while i < changes.len()
        invariant
            i <= changes@.len(),
            cviews == changes@.map_values(|p: (u8, String)| (p.0 as int, p.1@)),
            out@ == spec_render_changes(cviews.take(i as int)),
        decreases changes@.len() - i,
    {
        let ghost pre = out@;
        proof {
            assert(cviews[i as int] == (changes@[i as int].0 as int, changes@[i as int].1@));
        }
        let tag = changes[i].0;
        if tag == 0 {
            out.append("\x1b[31m-");
            out.append(changes[i].1.as_str());
            out.append("\x1b[0m");
        } else if tag == 1 {
            out.append("\x1b[32m+");
            out.append(changes[i].1.as_str());
            out.append("\x1b[0m");
        } else {
            out.append(" ");
            out.append(changes[i].1.as_str());
        }
        proof {
            assert(out@ =~= pre + spec_render_change(cviews[i as int]));
            lemma_render_changes_take_step(cviews, i as int);
        }
        i += 1;
    }
    proof {
        assert(cviews.take(changes@.len() as int) =~= cviews);
    }
    out
}

/// The diff of one path: what the disk holds (nothing reads as empty)
/// against the expected content.
pub open spec fn spec_diff_single(current: Option<Seq<char>>, expected: Seq<char>) -> Seq<char> {
    spec_render_changes(
        diff_changes(
            match current {
                Some(c) => c,
                None => Seq::empty(),
            },
            expected,
        ),
    )
}

/// The diff of a multiple-mode artifact: one block per file, each headed by
/// its path and closed by a blank line.
pub open spec fn spec_diff_files(
    files: Seq<(Seq<char>, Seq<char>)>,
    disk: Seq<DiskEntry>,
) -> Seq<char>
    decreases files.len(),
{
    if files.len() == 0 {
        Seq::empty()
    } else {
        "--- "@ + files[0].0 + "\n"@ + spec_diff_single(
            spec_disk_lookup(disk, files[0].0),
            files[0].1,
        ) + "\n\n"@ + spec_diff_files(files.drop_first(), disk)
    }
}

/// One more file extends the multiple-mode diff by that file's block.
proof fn lemma_diff_files_take_step(files: Seq<(Seq<char>, Seq<char>)>, i: int, disk: Seq<DiskEntry>)
    requires
        0 <= i < files.len(),
    ensures
        spec_diff_files(files.take(i + 1), disk) == spec_diff_files(files.take(i), disk) + ("--- "@
            + files[i].0 + "\n"@ + spec_diff_single(spec_disk_lookup(disk, files[i].0), files[i].1)
            + "\n\n"@),
    decreases i,
{
    let block = |j: int|
        "--- "@ + files[j].0 + "\n"@ + spec_diff_single(
            spec_disk_lookup(disk, files[j].0),
            files[j].1,
        ) + "\n\n"@;
    if i == 0 {
        reveal_with_fuel(spec_diff_files, 3);
        assert(files.take(1)[0] == files[0]);
        assert(files.take(1).drop_first() =~= Seq::<(Seq<char>, Seq<char>)>::empty());
        assert(files.take(0) =~= Seq::<(Seq<char>, Seq<char>)>::empty());
        assert(block(0) + Seq::<char>::empty() =~= Seq::<char>::empty() + block(0));
        assert(spec_diff_files(files.take(1), disk) =~= block(0) + Seq::<char>::empty());
    } else {
        lemma_diff_files_take_step(files.drop_first(), i - 1, disk);
        assert(files.take(i + 1)[0] == files[0]);
        assert(files.take(i)[0] == files[0]);
        assert(files.take(i + 1).drop_first() =~= files.drop_first().take(i));
        assert(files.take(i).drop_first() =~= files.drop_first().take(i - 1));
        assert(files.drop_first()[i - 1] == files[i]);
        assert(block(0) + (spec_diff_files(files.drop_first().take(i - 1), disk) + block(i)) =~= (
        block(0) + spec_diff_files(files.drop_first().take(i - 1), disk)) + block(i));
    }
}

/// Diffs a rendered artifact against the disk: one diff for a single
/// artifact at its location, one headed block per file for a multiple one.
/// A path with no file on disk reads as empty, so its whole expected content
/// shows as additions.
#[verifier::loop_isolation(false)]
pub fn diff_artifact(artifact: &FormatResult, location: &String, disk: &DiskState) -> (r: String)
    ensures
        match *artifact {
            FormatResult::Single(_) => r@ == spec_diff_single(
                spec_disk_lookup(disk.entries@, location@),
                artifact@->Single_0,
            ),
            FormatResult::Multiple(_) => r@ == spec_diff_files(
                artifact@->Multiple_0,
                disk.entries@,
            ),
        },
{
    match artifact {
        FormatResult::Single(expected) => {
            match disk.lookup(location.as_str()) {
                Some(current) => make_diff(current.as_str(), expected.as_str()),
                None => {
                    let r = make_diff("", expected.as_str());
                    proof {
                        reveal_strlit("");
                        assert(""@ =~= Seq::<char>::empty());
                    }
                    r
                },
            }
        },
        FormatResult::Multiple(files) => {
            let ghost fviews = files@.map_values(|p: (String, String)| (p.0@, p.1@));
            let mut out = String::new();
            let mut i: usize = 0;
            proof {
                assert(out@ =~= spec_diff_files(fviews.take(0), disk.entries@));
            }
            while i < files.len()
                invariant
                    i <= files@.len(),
                    fviews == files@.map_values(|p: (String, String)| (p.0@, p.1@)),
                    out@ == spec_diff_files(fviews.take(i as int), disk.entries@),
                decreases files@.len() - i,
            {
                let ghost pre = out@;
                proof {
                    assert(fviews[i as int] == (files@[i as int].0@, files@[i as int].1@));
                }
                let path = &files[i].0;
                let expected = &files[i].1;
                out.append("--- ");
                out.append(path.as_str());
                out.append("\n");
                let block = match disk.lookup(path.as_str()) {
                    Some(current) => make_diff(current.as_str(), expected.as_str()),
                    None => {
                        let b = make_diff("", expected.as_str());
                        proof {
                            reveal_strlit("");
                            assert(""@ =~= Seq::<char>::empty());
                        }
                        b
                    },
                };
                out.append(block.as_str());
                out.append("\n\n");
                proof {
                    assert(out@ =~= pre + ("--- "@ + fviews[i as int].0 + "\n"@ + spec_diff_single(
                        spec_disk_lookup(disk.entries@, fviews[i as int].0),
                        fviews[i as int].1,
                    ) + "\n\n"@));
                    lemma_diff_files_take_step(fviews, i as int, disk.entries@);
                }
                i += 1;
            }
            proof {
                assert(fviews.take(files@.len() as int) =~= fviews);
            }
            out
        },
    }
}

} // verus!
