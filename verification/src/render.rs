//! The rendering engine: a pre-order walk of the instruction tree that emits
//! nested markdown, pruning disabled or non-applicable subtrees.

use vstd::prelude::*;
use crate::common::TargetsChecker;
use crate::model::InstructionItem;
use crate::model::Targets;
use vstd::string::StringExecFns;

verus! {

broadcast use vstd::string::group_string_axioms;

/// One referenced body file, as read (or found missing) by the caller.
pub struct BodyFile {
    pub name: String,
    pub content: Option<String>,
}

/// The referenced body files handed to the renderer, resolved up front so the
/// renderer itself stays free of filesystem access.
pub struct BodyFiles {
    pub entries: Vec<BodyFile>,
}

/// The content that the store resolves for a file name: `None` when the file
/// is missing or was never provided.
pub open spec fn spec_body_lookup(entries: Seq<BodyFile>, name: Seq<char>) -> Option<Seq<char>>
    decreases entries.len(),
{
    if entries.len() == 0 {
        None
    } else if entries[0].name@ == name {
        match entries[0].content {
            Some(c) => Some(c@),
            None => None,
        }
    } else {
        spec_body_lookup(entries.drop_first(), name)
    }
}

impl BodyFiles {
    pub fn new() -> (r: BodyFiles)
        ensures
            r.entries@.len() == 0,
    {
        BodyFiles { entries: Vec::new() }
    }

    pub fn push(&mut self, name: String, content: Option<String>)
        ensures
            final(self).entries@ == old(self).entries@.push(BodyFile { name, content }),
    {
        self.entries.push(BodyFile { name, content });
    }

    /// First-match lookup of a referenced body file.
    #[verifier::loop_isolation(false)]
    pub fn lookup(&self, name: &String) -> (r: Option<&String>)
        ensures
            match r {
                Some(c) => spec_body_lookup(self.entries@, name@) == Some(c@),
                None => spec_body_lookup(self.entries@, name@) is None,
            },
    {
        let mut i: usize = 0;
        proof {
            assert(self.entries@.skip(0) =~= self.entries@);
        }
        while i < self.entries.len()
            invariant
                i <= self.entries@.len(),
                spec_body_lookup(self.entries@.skip(i as int), name@) == spec_body_lookup(
                    self.entries@,
                    name@,
                ),
            decreases self.entries@.len() - i,
        {
            proof {
                assert(self.entries@.skip(i as int).drop_first() =~= self.entries@.skip(
                    i as int + 1,
                ));
            }
            if crate::text::str_equal(self.entries[i].name.as_str(), name.as_str()) {
                match &self.entries[i].content {
                    Some(c) => {
                        return Some(c);
                    },
                    None => {
                        return None;
                    },
                }
            }
            i += 1;
        }
        None
    }
}

/// A run of `n` heading markers.
pub open spec fn spec_hashes(n: nat) -> Seq<char> {
    Seq::new(n, |i| '#')
}

/// A heading line at nesting depth `level`, followed by a blank line.
pub open spec fn spec_heading(level: nat, title: Seq<char>) -> Seq<char> {
    spec_hashes(level + 2) + " "@ + title + "\n\n"@
}

/// The comment emitted in place of a missing referenced body file.
pub open spec fn spec_placeholder(name: Seq<char>) -> Seq<char> {
    "<!-- Content from file: "@ + name + " (not found) -->\n\n"@
}

/// Whether a node survives pruning for `target`: it is not disabled and its
/// selector matches.
pub open spec fn spec_item_applies(item: InstructionItem, target: Targets) -> bool {
    match item {
        InstructionItem::Variant0 { disable, targets, .. } => !disable
            && targets.spec_is_for_target(target),
        InstructionItem::Variant1 { disable, targets, .. } => !disable
            && targets.spec_is_for_target(target),
        InstructionItem::Variant2 { disable, targets, .. } => !disable
            && targets.spec_is_for_target(target),
    }
}

/// The markdown that one node renders to at a nesting depth, for a target,
/// given the referenced body files. A pruned node renders to nothing, and the
/// cut takes its whole subtree with it.
pub open spec fn spec_render_item(
    item: InstructionItem,
    level: nat,
    target: Targets,
    bodies: Seq<BodyFile>,
) -> Seq<char>
    decreases item,
{
    if !spec_item_applies(item, target) {
        Seq::empty()
    } else {
        match item {
            InstructionItem::Variant0 { title, body, .. } => spec_heading(level, title@) + body@
                + "\n\n"@,
            InstructionItem::Variant1 { title, body_file, .. } => spec_heading(level, title@)
                + (match spec_body_lookup(bodies, body_file@) {
                Some(c) => c,
                None => spec_placeholder(body_file@),
            }) + "\n\n"@,
            InstructionItem::Variant2 { title, instructions, .. } => spec_heading(level, title@)
                + spec_render_items(instructions@, level + 1, target, bodies),
        }
    }
}

/// The markdown that a list of sibling nodes renders to, in order.
pub open spec fn spec_render_items(
    items: Seq<InstructionItem>,
    level: nat,
    target: Targets,
    bodies: Seq<BodyFile>,
) -> Seq<char>
    decreases items,
{
    if items.len() == 0 {
        Seq::empty()
    } else {
        spec_render_item(items[0], level, target, bodies) + spec_render_items(
            items.drop_first(),
            level,
            target,
            bodies,
        )
    }
}

/// Height of one node: greatest number of nested levels below it, plus one.
pub open spec fn spec_item_height(item: InstructionItem) -> nat
    decreases item,
{
    match item {
        InstructionItem::Variant2 { instructions, .. } => 1 + spec_items_height(instructions@),
        _ => 1,
    }
}

/// Height of the tallest node in a list.
pub open spec fn spec_items_height(items: Seq<InstructionItem>) -> nat
    decreases items,
{
    if items.len() == 0 {
        0
    } else if spec_item_height(items[0]) >= spec_items_height(items.drop_first()) {
        spec_item_height(items[0])
    } else {
        spec_items_height(items.drop_first())
    }
}

/// A list is at least as tall as each of its nodes.
pub proof fn lemma_items_height_ge(items: Seq<InstructionItem>, i: int)
    requires
        0 <= i < items.len(),
    ensures
        spec_items_height(items) >= spec_item_height(items[i]),
    decreases items,
{
    if i > 0 {
        lemma_items_height_ge(items.drop_first(), i - 1);
        assert(items.drop_first()[i - 1] == items[i]);
    }
}

/// Rendering distributes over concatenation of sibling lists.
pub proof fn lemma_render_items_concat(
    a: Seq<InstructionItem>,
    b: Seq<InstructionItem>,
    level: nat,
    target: Targets,
    bodies: Seq<BodyFile>,
)
    ensures
        spec_render_items(a + b, level, target, bodies) == spec_render_items(
            a,
            level,
            target,
            bodies,
        ) + spec_render_items(b, level, target, bodies),
    decreases a,
{
    if a.len() == 0 {
        assert(a + b =~= b);
        assert(spec_render_items(a, level, target, bodies) + spec_render_items(
            b,
            level,
            target,
            bodies,
        ) =~= spec_render_items(b, level, target, bodies));
    } else {
        assert((a + b).len() > 0);
        assert((a + b)[0] == a[0]);
        assert((a + b).drop_first() =~= a.drop_first() + b);
        lemma_render_items_concat(a.drop_first(), b, level, target, bodies);
        assert(spec_render_item(a[0], level, target, bodies) + (spec_render_items(
            a.drop_first(),
            level,
            target,
            bodies,
        ) + spec_render_items(b, level, target, bodies)) =~= (spec_render_item(
            a[0],
            level,
            target,
            bodies,
        ) + spec_render_items(a.drop_first(), level, target, bodies)) + spec_render_items(
            b,
            level,
            target,
            bodies,
        ));
    }
}

/// One more sibling extends the rendering by that sibling's rendering.
pub proof fn lemma_render_items_take_step(
    items: Seq<InstructionItem>,
    i: int,
    level: nat,
    target: Targets,
    bodies: Seq<BodyFile>,
)
    requires
        0 <= i < items.len(),
    ensures
        spec_render_items(items.take(i + 1), level, target, bodies) == spec_render_items(
            items.take(i),
            level,
            target,
            bodies,
        ) + spec_render_item(items[i], level, target, bodies),
{
    let one = items.take(i + 1).skip(i);
    assert(items.take(i + 1) =~= items.take(i) + one);
    lemma_render_items_concat(items.take(i), one, level, target, bodies);
    assert(one[0] == items[i]);
    assert(one.drop_first() =~= Seq::<InstructionItem>::empty());
    assert(spec_render_items(one, level, target, bodies) == spec_render_item(
        items[i],
        level,
        target,
        bodies,
    ) + spec_render_items(one.drop_first(), level, target, bodies));
    assert(spec_render_item(items[i], level, target, bodies) + Seq::<char>::empty()
        =~= spec_render_item(items[i], level, target, bodies));
    assert(spec_render_items(items.take(i), level, target, bodies) + spec_render_item(
        items[i],
        level,
        target,
        bodies,
    ) =~= spec_render_items(items.take(i), level, target, bodies) + spec_render_item(
        items[i],
        level,
        target,
        bodies,
    ));
}

/// A disabled node renders to nothing, its whole subtree with it; the cut is
/// absolute, whatever the descendants' own selectors and flags say.
pub proof fn lemma_disabled_group_renders_nothing(
    item: InstructionItem,
    level: nat,
    target: Targets,
    bodies: Seq<BodyFile>,
)
    requires
        match item {
            InstructionItem::Variant0 { disable, .. } => disable,
            InstructionItem::Variant1 { disable, .. } => disable,
            InstructionItem::Variant2 { disable, .. } => disable,
        },
    ensures
        spec_render_item(item, level, target, bodies) == Seq::<char>::empty(),
{
}

/// Appends `n` heading markers to `out`.
#[verifier::loop_isolation(false)]
pub(crate) fn push_hashes(out: &mut String, n: usize)
    ensures
        final(out)@ == old(out)@ + spec_hashes(n as nat),
{
    proof {
        reveal_strlit("#");
    }
    let mut i: usize = 0;
    proof {
        assert(old(out)@ + spec_hashes(0) =~= old(out)@);
    }
    while i < n
        invariant
            i <= n,
            out@ == old(out)@ + spec_hashes(i as nat),
        decreases n - i,
    {
        out.append("#");
        proof {
            assert(spec_hashes(i as nat) + "#"@ =~= spec_hashes(i as nat + 1));
        }
        i += 1;
    }
    proof {
        assert(old(out)@ + spec_hashes(0) =~= old(out)@);
    }
}

/// Appends the heading line for `title` at `level` to `out`.
fn push_heading(out: &mut String, level: usize, title: &String)
    requires
        level + 2 <= usize::MAX,
    ensures
        final(out)@ == old(out)@ + spec_heading(level as nat, title@),
{
    push_hashes(out, level + 2);
    out.append(" ");
    out.append(title.as_str());
    out.append("\n\n");
    proof {
        assert(old(out)@ + spec_hashes(level as nat + 2) + " "@ + title@ + "\n\n"@ =~= old(out)@
            + spec_heading(level as nat, title@));
    }
}

/// Renders every applicable instruction of `instructions` into `output` at
/// the given nesting depth, walking groups depth-first. Never fails; the
/// `Result` mirrors the renderer's interface, whose other implementations can
/// reject a configuration.
#[verifier::loop_isolation(false)]
pub fn process_instructions_common(
    output: &mut String,
    instructions: &Vec<InstructionItem>,
    level: usize,
    target: Targets,
    bodies: &BodyFiles,
) -> (r: Result<(), String>)
    requires
        level + spec_items_height(instructions@) + 2 <= usize::MAX,
    ensures
        r is Ok,
        final(output)@ == old(output)@ + spec_render_items(
            instructions@,
            level as nat,
            target,
            bodies.entries@,
        ),
    decreases instructions@,
{
    let ghost items = instructions@;
    let n = instructions.len();
    let mut idx: usize = 0;
    while idx < n
        invariant
            idx <= n,
            output@ == old(output)@ + spec_render_items(
                items.take(idx as int),
                level as nat,
                target,
                bodies.entries@,
            ),
        decreases n - idx,
    {
        let ghost pre = output@;
        match &instructions[idx] {
            InstructionItem::Variant0 { title, body, disable, targets, .. } => {
                if !*disable && targets.is_for_target(target) {
                    push_heading(output, level, title);
                    output.append(body.as_str());
                    output.append("\n\n");
                    proof {
                        assert(output@ =~= pre + spec_render_item(
                            items[idx as int],
                            level as nat,
                            target,
                            bodies.entries@,
                        ));
                    }
                }
            },
            InstructionItem::Variant1 { title, body_file, disable, targets, .. } => {
                if !*disable && targets.is_for_target(target) {
                    push_heading(output, level, title);
                    match bodies.lookup(body_file) {
                        Some(content) => {
                            output.append(content.as_str());
                        },
                        None => {
                            output.append("<!-- Content from file: ");
                            output.append(body_file.as_str());
                            output.append(" (not found) -->\n\n");
                        },
                    }
                    output.append("\n\n");
                    proof {
                        assert(output@ =~= pre + spec_render_item(
                            items[idx as int],
                            level as nat,
                            target,
                            bodies.entries@,
                        ));
                    }
                }
            },
            InstructionItem::Variant2 { title, instructions: nested, disable, targets, .. } => {
                if !*disable && targets.is_for_target(target) {
                    push_heading(output, level, title);
                    proof {
                        lemma_items_height_ge(items, idx as int);
                        assert(decreases_to!(items => nested@));
                    }
                    let _ = process_instructions_common(output, nested, level + 1, target, bodies);
                    proof {
                        assert(output@ =~= pre + spec_render_item(
                            items[idx as int],
                            level as nat,
                            target,
                            bodies.entries@,
                        ));
                    }
                }
            },
        }
        proof {
            lemma_render_items_take_step(items, idx as int, level as nat, target, bodies.entries@);
            if !spec_item_applies(items[idx as int], target) {
                assert(output@ =~= pre + spec_render_item(
                    items[idx as int],
                    level as nat,
                    target,
                    bodies.entries@,
                ));
            }
        }
        idx += 1;
    }
    proof {
        assert(items.take(n as int) =~= items);
    }
    Ok(())
}

/// The body-file names one node refers to, nested groups walked in order.
pub open spec fn spec_item_body_files(item: InstructionItem) -> Seq<Seq<char>>
    decreases item,
{
    match item {
        InstructionItem::Variant0 { .. } => Seq::empty(),
        InstructionItem::Variant1 { body_file, .. } => seq![body_file@],
        InstructionItem::Variant2 { instructions, .. } => spec_body_file_names(instructions@),
    }
}

/// The body-file names a tree refers to, in pre-order, every node included
/// so that one read pass serves every target.
pub open spec fn spec_body_file_names(items: Seq<InstructionItem>) -> Seq<Seq<char>>
    decreases items,
{
    if items.len() == 0 {
        Seq::empty()
    } else {
        spec_item_body_files(items[0]) + spec_body_file_names(items.drop_first())
    }
}

/// One more node extends the name list by that node's names.
proof fn lemma_body_file_names_take_step(items: Seq<InstructionItem>, i: int)
    requires
        0 <= i < items.len(),
    ensures
        spec_body_file_names(items.take(i + 1)) == spec_body_file_names(items.take(i))
            + spec_item_body_files(items[i]),
    decreases i,
{
    if i == 0 {
        assert(items.take(1)[0] == items[0]);
        assert(items.take(1).drop_first() =~= Seq::<InstructionItem>::empty());
        assert(items.take(0) =~= Seq::<InstructionItem>::empty());
        assert(spec_item_body_files(items[0]) + Seq::<Seq<char>>::empty() =~= Seq::<
            Seq<char>,
        >::empty() + spec_item_body_files(items[0]));
    } else {
        lemma_body_file_names_take_step(items.drop_first(), i - 1);
        assert(items.take(i + 1)[0] == items[0]);
        assert(items.take(i)[0] == items[0]);
        assert(items.take(i + 1).drop_first() =~= items.drop_first().take(i));
        assert(items.take(i).drop_first() =~= items.drop_first().take(i - 1));
        assert(items.drop_first()[i - 1] == items[i]);
        assert(spec_item_body_files(items[0]) + (spec_body_file_names(
            items.drop_first().take(i - 1),
        ) + spec_item_body_files(items[i])) =~= (spec_item_body_files(items[0])
            + spec_body_file_names(items.drop_first().take(i - 1))) + spec_item_body_files(
            items[i],
        ));
    }
}

/// Collects every referenced body-file name of the tree, so the caller can
/// read them all up front into a [`BodyFiles`] store.
#[verifier::loop_isolation(false)]
pub fn collect_body_files(items: &Vec<InstructionItem>) -> (r: Vec<String>)
    ensures
        r@.map_values(|s: String| s@) == spec_body_file_names(items@),
    decreases items@,
{
    let ghost all = items@;
    let mut r: Vec<String> = Vec::new();
    let mut idx: usize = 0;
    proof {
        assert(r@.map_values(|s: String| s@) =~= spec_body_file_names(all.take(0)));
    }
    while idx < items.len()
        invariant
            idx <= all.len(),
            r@.map_values(|s: String| s@) == spec_body_file_names(all.take(idx as int)),
        decreases all.len() - idx,
    {
        let ghost pre = r@;
        match &items[idx] {
            InstructionItem::Variant0 { .. } => {},
            InstructionItem::Variant1 { body_file, .. } => {
                r.push(body_file.clone());
            },
            InstructionItem::Variant2 { instructions: nested, .. } => {
                proof {
                    assert(decreases_to!(all => nested@));
                }
                let mut inner = collect_body_files(nested);
                let ghost inner_views = inner@.map_values(|s: String| s@);
                let mut k: usize = 0;
                while k < inner.len()
                    invariant
                        k <= inner@.len(),
                        inner@.map_values(|s: String| s@) == inner_views,
                        r@.map_values(|s: String| s@) == pre.map_values(|s: String| s@)
                            + inner_views.take(k as int),
                    decreases inner@.len() - k,
                {
                    let name = inner[k].clone();
                    let ghost before_push = r@;
                    r.push(name);
                    proof {
                        before_push.lemma_push_map_commute(|s: String| s@, name);
                        assert(inner_views[k as int] == inner@[k as int]@);
                        assert(inner_views.take(k as int + 1) =~= inner_views.take(
                            k as int,
                        ).push(inner_views[k as int]));
                        assert(r@.map_values(|s: String| s@) =~= pre.map_values(|s: String| s@)
                            + inner_views.take(k as int + 1));
                    }
                    k += 1;
                }
                proof {
                    assert(inner_views.take(inner@.len() as int) =~= inner_views);
                }
            },
        }
        proof {
            lemma_body_file_names_take_step(all, idx as int);
            assert(r@.map_values(|s: String| s@) =~= spec_body_file_names(all.take(idx as int + 1)));
        }
        idx += 1;
    }
    proof {
        assert(all.take(all.len() as int) =~= all);
    }
    r
}

} // verus!
