//! Rendering for multiple-output mode: every applicable top-level node
//! becomes one file named from its title, its subtree flattened into it.

use vstd::prelude::*;
use crate::common::TargetsChecker;
use crate::model::{InstructionItem, Targets};
use crate::render::{
    spec_body_lookup, spec_hashes, spec_item_applies, spec_item_height, spec_items_height,
    lemma_items_height_ge, BodyFile, BodyFiles,
};
use vstd::string::StringExecFns;

verus! {

broadcast use vstd::string::group_string_axioms;

/// A heading line in a per-item file, at `hlevel` markers.
pub open spec fn spec_md_heading(hlevel: nat, title: Seq<char>) -> Seq<char> {
    spec_hashes(hlevel) + " "@ + title + "\n\n"@
}

/// The comment a per-item file holds in place of a missing body file.
pub open spec fn spec_md_placeholder(name: Seq<char>) -> Seq<char> {
    "<!-- Content from file: "@ + name + " (not found) -->\n"@
}

/// The markdown of one node inside a per-item file. Nested nodes are pruned
/// by the same disabled/selector cut as single-mode rendering.
pub open spec fn spec_item_md(
    item: InstructionItem,
    hlevel: nat,
    target: Targets,
    bodies: Seq<BodyFile>,
) -> Seq<char>
    decreases item,
{
    match item {
        InstructionItem::Variant0 { title, body, .. } => spec_md_heading(hlevel, title@) + body@
            + "\n"@,
        InstructionItem::Variant1 { title, body_file, .. } => spec_md_heading(hlevel, title@) + (
        match spec_body_lookup(bodies, body_file@) {
            Some(c) => c,
            None => spec_md_placeholder(body_file@),
        }) + "\n"@,
        InstructionItem::Variant2 { title, instructions, .. } => spec_md_heading(hlevel, title@)
            + spec_items_md(instructions@, hlevel + 1, target, bodies) + "\n"@,
    }
}

/// The markdown of a list of nested nodes, pruned ones left out.
pub open spec fn spec_items_md(
    items: Seq<InstructionItem>,
    hlevel: nat,
    target: Targets,
    bodies: Seq<BodyFile>,
) -> Seq<char>
    decreases items,
{
    if items.len() == 0 {
        Seq::empty()
    } else {
        (if spec_item_applies(items[0], target) {
            spec_item_md(items[0], hlevel, target, bodies)
        } else {
            Seq::empty()
        }) + spec_items_md(items.drop_first(), hlevel, target, bodies)
    }
}

/// The title of a node.
pub open spec fn spec_item_title(item: InstructionItem) -> Seq<char> {
    match item {
        InstructionItem::Variant0 { title, .. } => title@,
        InstructionItem::Variant1 { title, .. } => title@,
        InstructionItem::Variant2 { title, .. } => title@,
    }
}

/// The description of a node, when it carries one.
pub open spec fn spec_item_description(item: InstructionItem) -> Option<Seq<char>> {
    match item {
        InstructionItem::Variant0 { description, .. } => match description {
            Some(d) => Some(d@),
            None => None,
        },
        InstructionItem::Variant1 { description, .. } => match description {
            Some(d) => Some(d@),
            None => None,
        },
        InstructionItem::Variant2 { description, .. } => match description {
            Some(d) => Some(d@),
            None => None,
        },
    }
}

/// The front matter of a per-item file: present only for adapters that carry
/// one, and only when the node has a description.
pub open spec fn spec_front_matter(item: InstructionItem, enabled: bool) -> Seq<char> {
    if enabled {
        match spec_item_description(item) {
            Some(d) => "---\ndescription: "@ + d + "\n---\n\n"@,
            None => Seq::empty(),
        }
    } else {
        Seq::empty()
    }
}

/// The named files of a multiple-mode artifact: one per applicable top-level
/// node, in order, named `prefix + title + suffix`.
pub open spec fn spec_multi_files(
    items: Seq<InstructionItem>,
    target: Targets,
    bodies: Seq<BodyFile>,
    prefix: Seq<char>,
    suffix: Seq<char>,
    front: bool,
) -> Seq<(Seq<char>, Seq<char>)>
    decreases items,
{
    if items.len() == 0 {
        Seq::empty()
    } else {
        let rest = spec_multi_files(items.drop_first(), target, bodies, prefix, suffix, front);
        if spec_item_applies(items[0], target) {
            seq![
                (
                    prefix + spec_item_title(items[0]) + suffix,
                    spec_front_matter(items[0], front) + spec_item_md(items[0], 1, target, bodies),
                ),
            ] + rest
        } else {
            rest
        }
    }
}

/// A disabled or non-applicable top-level node contributes no file in
/// multiple-output mode: the cut takes its whole subtree with it.
pub proof fn lemma_pruned_item_no_file(
    items: Seq<InstructionItem>,
    target: Targets,
    bodies: Seq<BodyFile>,
    prefix: Seq<char>,
    suffix: Seq<char>,
    front: bool,
)
    requires
        items.len() > 0,
        !spec_item_applies(items[0], target),
    ensures
        spec_multi_files(items, target, bodies, prefix, suffix, front) == spec_multi_files(
            items.drop_first(),
            target,
            bodies,
            prefix,
            suffix,
            front,
        ),
{
}

/// One more sibling extends the markdown of a nested list by that sibling's
/// markdown.
proof fn lemma_items_md_take_step(
    items: Seq<InstructionItem>,
    i: int,
    hlevel: nat,
    target: Targets,
    bodies: Seq<BodyFile>,
)
    requires
        0 <= i < items.len(),
    ensures
        spec_items_md(items.take(i + 1), hlevel, target, bodies) == spec_items_md(
            items.take(i),
            hlevel,
            target,
            bodies,
        ) + (if spec_item_applies(items[i], target) {
            spec_item_md(items[i], hlevel, target, bodies)
        } else {
            Seq::<char>::empty()
        }),
    decreases i,
{
    if i == 0 {
        assert(items.take(1)[0] == items[0]);
        assert(items.take(1).drop_first() =~= Seq::<InstructionItem>::empty());
        assert(items.take(0) =~= Seq::<InstructionItem>::empty());
        if spec_item_applies(items[0], target) {
            assert(spec_item_md(items[0], hlevel, target, bodies) + Seq::<char>::empty()
                =~= Seq::<char>::empty() + spec_item_md(items[0], hlevel, target, bodies));
        } else {
            assert(Seq::<char>::empty() + Seq::<char>::empty() =~= Seq::<char>::empty());
        }
    } else {
        lemma_items_md_take_step(items.drop_first(), i - 1, hlevel, target, bodies);
        assert(items.take(i + 1)[0] == items[0]);
        assert(items.take(i)[0] == items[0]);
        assert(items.take(i + 1).drop_first() =~= items.drop_first().take(i));
        assert(items.take(i).drop_first() =~= items.drop_first().take(i - 1));
        assert(items.drop_first()[i - 1] == items[i]);
        let h = if spec_item_applies(items[0], target) {
            spec_item_md(items[0], hlevel, target, bodies)
        } else {
            Seq::<char>::empty()
        };
        let mid = spec_items_md(items.drop_first().take(i - 1), hlevel, target, bodies);
        let last = if spec_item_applies(items[i], target) {
            spec_item_md(items[i], hlevel, target, bodies)
        } else {
            Seq::<char>::empty()
        };
        assert(h + (mid + last) =~= (h + mid) + last);
    }
}

/// One more top-level node extends the file list by at most one file.
proof fn lemma_multi_files_take_step(
    items: Seq<InstructionItem>,
    i: int,
    target: Targets,
    bodies: Seq<BodyFile>,
    prefix: Seq<char>,
    suffix: Seq<char>,
    front: bool,
)
    requires
        0 <= i < items.len(),
    ensures
        spec_multi_files(items.take(i + 1), target, bodies, prefix, suffix, front)
            == spec_multi_files(items.take(i), target, bodies, prefix, suffix, front) + (
        if spec_item_applies(items[i], target) {
            seq![
                (
                    prefix + spec_item_title(items[i]) + suffix,
                    spec_front_matter(items[i], front) + spec_item_md(items[i], 1, target, bodies),
                ),
            ]
        } else {
            Seq::<(Seq<char>, Seq<char>)>::empty()
        }),
    decreases i,
{
    let entry = |j: int|
        seq![
            (
                prefix + spec_item_title(items[j]) + suffix,
                spec_front_matter(items[j], front) + spec_item_md(items[j], 1, target, bodies),
            ),
        ];
    if i == 0 {
        assert(items.take(1)[0] == items[0]);
        assert(items.take(1).drop_first() =~= Seq::<InstructionItem>::empty());
        assert(items.take(0) =~= Seq::<InstructionItem>::empty());
        if spec_item_applies(items[0], target) {
            assert(entry(0) + Seq::<(Seq<char>, Seq<char>)>::empty() =~= Seq::<
                (Seq<char>, Seq<char>),
            >::empty() + entry(0));
        } else {
            assert(Seq::<(Seq<char>, Seq<char>)>::empty() + Seq::<
                (Seq<char>, Seq<char>),
            >::empty() =~= Seq::<(Seq<char>, Seq<char>)>::empty());
        }
    } else {
        lemma_multi_files_take_step(items.drop_first(), i - 1, target, bodies, prefix, suffix, front);
        assert(items.take(i + 1)[0] == items[0]);
        assert(items.take(i)[0] == items[0]);
        assert(items.take(i + 1).drop_first() =~= items.drop_first().take(i));
        assert(items.take(i).drop_first() =~= items.drop_first().take(i - 1));
        assert(items.drop_first()[i - 1] == items[i]);
        if spec_item_applies(items[0], target) {
            let mid = spec_multi_files(
                items.drop_first().take(i - 1),
                target,
                bodies,
                prefix,
                suffix,
                front,
            );
            let last = if spec_item_applies(items[i], target) {
                entry(i)
            } else {
                Seq::<(Seq<char>, Seq<char>)>::empty()
            };
            assert(entry(0) + (mid + last) =~= (entry(0) + mid) + last);
        }
    }
}

/// Renders one node and its surviving subtree as the markdown of a per-item
/// file, headings starting at `hlevel` markers.
#[verifier::loop_isolation(false)]
pub fn instruction_to_md(
    item: &InstructionItem,
    hlevel: usize,
    target: Targets,
    bodies: &BodyFiles,
) -> (r: String)
    requires
        hlevel + spec_item_height(*item) <= usize::MAX,
        hlevel >= 1,
    ensures
        r@ == spec_item_md(*item, hlevel as nat, target, bodies.entries@),
    decreases *item,
{
    let mut out = String::new();
    match item {
        InstructionItem::Variant0 { title, body, .. } => {
            push_md_heading(&mut out, hlevel, title);
            out.append(body.as_str());
            out.append("\n");
            proof {
                assert(out@ =~= spec_item_md(*item, hlevel as nat, target, bodies.entries@));
            }
        },
        InstructionItem::Variant1 { title, body_file, .. } => {
            push_md_heading(&mut out, hlevel, title);
            match bodies.lookup(body_file) {
                Some(content) => {
                    out.append(content.as_str());
                },
                None => {
                    out.append("<!-- Content from file: ");
                    out.append(body_file.as_str());
                    out.append(" (not found) -->\n");
                },
            }
            out.append("\n");
            proof {
                assert(out@ =~= spec_item_md(*item, hlevel as nat, target, bodies.entries@));
            }
        },
        InstructionItem::Variant2 { title, instructions: nested, .. } => {
            push_md_heading(&mut out, hlevel, title);
            let ghost items = nested@;
            let ghost base = out@;
            let n = nested.len();
            let mut idx: usize = 0;
            proof {
                assert(base + spec_items_md(items.take(0), hlevel as nat + 1, target,
                    bodies.entries@) =~= base);
            }
            while idx < n
                invariant
                    idx <= n,
                    out@ == base + spec_items_md(
                        items.take(idx as int),
                        hlevel as nat + 1,
                        target,
                        bodies.entries@,
                    ),
                decreases n - idx,
            {
                let ghost pre = out@;
                let child = &nested[idx];
                let applicable = match child {
                    InstructionItem::Variant0 { disable, targets, .. } => !*disable
                        && targets.is_for_target(target),
                    InstructionItem::Variant1 { disable, targets, .. } => !*disable
                        && targets.is_for_target(target),
                    InstructionItem::Variant2 { disable, targets, .. } => !*disable
                        && targets.is_for_target(target),
                };
                if applicable {
                    proof {
                        lemma_items_height_ge(items, idx as int);
                        assert(decreases_to!(*item => items[idx as int]));
                    }
                    let piece = instruction_to_md(child, hlevel + 1, target, bodies);
                    out.append(piece.as_str());
                }
                proof {
                    lemma_items_md_take_step(
                        items,
                        idx as int,
                        hlevel as nat + 1,
                        target,
                        bodies.entries@,
                    );
                    if !spec_item_applies(items[idx as int], target) {
                        assert(out@ =~= pre + Seq::<char>::empty());
                    }
                }
                idx += 1;
            }
            proof {
                assert(items.take(n as int) =~= items);
            }
            out.append("\n");
            proof {
                assert(out@ =~= spec_item_md(*item, hlevel as nat, target, bodies.entries@));
            }
        },
    }
    out
}

/// Appends a per-item-file heading line.
fn push_md_heading(out: &mut String, hlevel: usize, title: &String)
    ensures
        final(out)@ == old(out)@ + spec_md_heading(hlevel as nat, title@),
{
    crate::render::push_hashes(out, hlevel);
    out.append(" ");
    out.append(title.as_str());
    out.append("\n\n");
    proof {
        assert(old(out)@ + spec_hashes(hlevel as nat) + " "@ + title@ + "\n\n"@ =~= old(out)@
            + spec_md_heading(hlevel as nat, title@));
    }
}

/// Builds the named files of a multiple-mode artifact: one per applicable
/// top-level node, named `prefix + title + suffix`, with front matter when
/// the adapter carries one.
#[verifier::loop_isolation(false)]
pub fn multi_files(
    items: &Vec<InstructionItem>,
    target: Targets,
    bodies: &BodyFiles,
    prefix: &str,
    suffix: &str,
    front: bool,
) -> (r: Vec<(String, String)>)
    requires
        spec_items_height(items@) + 1 <= usize::MAX,
    ensures
        r@.map_values(|p: (String, String)| (p.0@, p.1@)) == spec_multi_files(
            items@,
            target,
            bodies.entries@,
            prefix@,
            suffix@,
            front,
        ),
{
    let ghost all = items@;
    let mut r: Vec<(String, String)> = Vec::new();
    let mut idx: usize = 0;
    proof {
        assert(r@.map_values(|p: (String, String)| (p.0@, p.1@)) =~= spec_multi_files(
            all.take(0),
            target,
            bodies.entries@,
            prefix@,
            suffix@,
            front,
        ));
    }
    while idx < items.len()
        invariant
            idx <= all.len(),
            r@.map_values(|p: (String, String)| (p.0@, p.1@)) == spec_multi_files(
                all.take(idx as int),
                target,
                bodies.entries@,
                prefix@,
                suffix@,
                front,
            ),
        decreases all.len() - idx,
    {
        let ghost pre = r@;
        let item = &items[idx];
        let applicable = match item {
            InstructionItem::Variant0 { disable, targets, .. } => !*disable
                && targets.is_for_target(target),
            InstructionItem::Variant1 { disable, targets, .. } => !*disable
                && targets.is_for_target(target),
            InstructionItem::Variant2 { disable, targets, .. } => !*disable
                && targets.is_for_target(target),
        };
        if applicable {
            let title = match item {
                InstructionItem::Variant0 { title, .. } => title,
                InstructionItem::Variant1 { title, .. } => title,
                InstructionItem::Variant2 { title, .. } => title,
            };
            let description = match item {
                InstructionItem::Variant0 { description, .. } => description,
                InstructionItem::Variant1 { description, .. } => description,
                InstructionItem::Variant2 { description, .. } => description,
            };
            let mut path = String::new();
            path.append(prefix);
            path.append(title.as_str());
            path.append(suffix);
            let mut content = String::new();
            if front {
                match description {
                    Some(d) => {
                        content.append("---\ndescription: ");
                        content.append(d.as_str());
                        content.append("\n---\n\n");
                    },
                    None => {},
                }
            }
            proof {
                lemma_items_height_ge(all, idx as int);
                assert(content@ =~= spec_front_matter(all[idx as int], front));
                assert(path@ =~= prefix@ + spec_item_title(all[idx as int]) + suffix@);
            }
            let md = instruction_to_md(item, 1, target, bodies);
            content.append(md.as_str());
            r.push((path, content));
        }
        proof {
            lemma_multi_files_take_step(
                all,
                idx as int,
                target,
                bodies.entries@,
                prefix@,
                suffix@,
                front,
            );
            assert(r@.map_values(|p: (String, String)| (p.0@, p.1@)) =~= spec_multi_files(
                all.take(idx as int + 1),
                target,
                bodies.entries@,
                prefix@,
                suffix@,
                front,
            ));
        }
        idx += 1;
    }
    proof {
        assert(all.take(all.len() as int) =~= all);
    }
    r
}

} // verus!
