//! The reconciliation engine: turns a rendered artifact and the current disk
//! state into the filesystem actions that bring the output up to date. The
//! decisions are computed here; reading and writing the disk is the caller's.

use vstd::prelude::*;
use crate::formats::{FormatResult, RenderedView};
use vstd::string::StrSliceExecFns;
use vstd::string::StringExecFns;

verus! {

broadcast use vstd::string::group_string_axioms;

/// The action decided for one output path.
#[derive(Clone, Copy, PartialEq, Eq, Structural, Debug)]
pub enum ReconcileDecision {
    Create,
    Skip,
    OverwriteWithBackup,
    OverwriteForced,
    NoChange,
}

/// One filesystem step of a reconciliation plan, to be performed in order.
pub enum FsAction {
    CreateDirAll { path: String },
    CopyFile { from: String, to: String },
    RemoveFile { path: String },
    WriteFile { path: String, content: String },
}

/// The mathematical shape of one filesystem step.
#[verifier::ext_equal]
pub enum FsActionView {
    CreateDirAll { path: Seq<char> },
    CopyFile { from: Seq<char>, to: Seq<char> },
    RemoveFile { path: Seq<char> },
    WriteFile { path: Seq<char>, content: Seq<char> },
}

impl View for FsAction {
    type V = FsActionView;

    open spec fn view(&self) -> FsActionView {
        match self {
            FsAction::CreateDirAll { path } => FsActionView::CreateDirAll { path: path@ },
            FsAction::CopyFile { from, to } => FsActionView::CopyFile { from: from@, to: to@ },
            FsAction::RemoveFile { path } => FsActionView::RemoveFile { path: path@ },
            FsAction::WriteFile { path, content } => FsActionView::WriteFile {
                path: path@,
                content: content@,
            },
        }
    }
}

/// What the caller found on disk for one queried path: the file's content,
/// or nothing when the path holds no file.
pub struct DiskEntry {
    pub path: String,
    pub content: Option<String>,
}

/// The current disk content of every path a reconciliation pass looks at.
pub struct DiskState {
    pub entries: Vec<DiskEntry>,
}

/// First-match lookup of a path's current content.
pub open spec fn spec_disk_lookup(entries: Seq<DiskEntry>, path: Seq<char>) -> Option<Seq<char>>
    decreases entries.len(),
{
    if entries.len() == 0 {
        None
    } else if entries[0].path@ == path {
        match entries[0].content {
            Some(c) => Some(c@),
            None => None,
        }
    } else {
        spec_disk_lookup(entries.drop_first(), path)
    }
}

impl DiskState {
    pub fn new() -> (r: DiskState)
        ensures
            r.entries@.len() == 0,
    {
        DiskState { entries: Vec::new() }
    }

    pub fn push(&mut self, path: String, content: Option<String>)
        ensures
            final(self).entries@ == old(self).entries@.push(DiskEntry { path, content }),
    {
        self.entries.push(DiskEntry { path, content });
    }

    /// Looks up the current content of a path.
    #[verifier::loop_isolation(false)]
    pub fn lookup(&self, path: &str) -> (r: Option<&String>)
        ensures
            match r {
                Some(c) => spec_disk_lookup(self.entries@, path@) == Some(c@),
                None => spec_disk_lookup(self.entries@, path@) is None,
            },
    {
        let mut i: usize = 0;
        proof {
            assert(self.entries@.skip(0) =~= self.entries@);
        }
        while i < self.entries.len()
            invariant
                i <= self.entries@.len(),
                spec_disk_lookup(self.entries@.skip(i as int), path@) == spec_disk_lookup(
                    self.entries@,
                    path@,
                ),
            decreases self.entries@.len() - i,
        {
            proof {
                assert(self.entries@.skip(i as int).drop_first() =~= self.entries@.skip(
                    i as int + 1,
                ));
            }
            if crate::text::str_equal(self.entries[i].path.as_str(), path) {
                match &self.entries[i].content {
                    Some(c) => {
                        return Some(c);
                    },
                    None => {
                        return None;
                    },
                }
            }
            i += 1;
        }
        None
    }
}

/// The file reconciliation policy: what happens at one path, for desired
/// content, current content and the two flags; overwrite takes precedence.
pub open spec fn spec_decide(
    existing: Option<Seq<char>>,
    content: Seq<char>,
    overwrite: bool,
    force: bool,
) -> ReconcileDecision {
    match existing {
        None => ReconcileDecision::Create,
        Some(e) => if overwrite {
            if e == content {
                ReconcileDecision::NoChange
            } else {
                ReconcileDecision::OverwriteWithBackup
            }
        } else if force {
            ReconcileDecision::OverwriteForced
        } else {
            ReconcileDecision::Skip
        },
    }
}

/// The backup path of a file: its path with the backup suffix appended.
pub open spec fn spec_backup_path(path: Seq<char>) -> Seq<char> {
    path + ".bak"@
}

/// Index of the last path separator at or before `i`, if any.
pub open spec fn spec_rfind_slash(s: Seq<char>, i: int) -> Option<int>
    decreases i + 1,
{
    if i < 0 || i >= s.len() {
        None
    } else if s[i] == '/' {
        Some(i)
    } else {
        spec_rfind_slash(s, i - 1)
    }
}

/// The directory part of a path: everything before the last separator, or
/// nothing for a bare file name.
pub open spec fn spec_parent_dir(path: Seq<char>) -> Option<Seq<char>> {
    match spec_rfind_slash(path, path.len() - 1) {
        Some(i) => Some(path.take(i)),
        None => None,
    }
}

/// The plan for one path: the parent directory first when the file is new,
/// then what the policy decides — a plain write to create, a copy to the
/// backup path followed by the write to overwrite with backup, a plain write
/// to force, and nothing to skip or when nothing changed.
pub open spec fn spec_plan_single(
    path: Seq<char>,
    content: Seq<char>,
    existing: Option<Seq<char>>,
    overwrite: bool,
    force: bool,
) -> Seq<FsActionView> {
    let dirs: Seq<FsActionView> = if existing is None {
        match spec_parent_dir(path) {
            Some(d) => seq![FsActionView::CreateDirAll { path: d }],
            None => Seq::empty(),
        }
    } else {
        Seq::empty()
    };
    dirs + match spec_decide(existing, content, overwrite, force) {
        ReconcileDecision::Create => seq![FsActionView::WriteFile { path, content }],
        ReconcileDecision::NoChange => Seq::empty(),
        ReconcileDecision::OverwriteWithBackup => seq![
            FsActionView::CopyFile { from: path, to: spec_backup_path(path) },
            FsActionView::WriteFile { path, content },
        ],
        ReconcileDecision::OverwriteForced => seq![FsActionView::WriteFile { path, content }],
        ReconcileDecision::Skip => Seq::empty(),
    }
}

/// Appends the backup suffix to a path.
pub fn backup_path_of(path: &String) -> (r: String)
    ensures
        r@ == spec_backup_path(path@),
{
    let mut r = path.clone();
    r.append(".bak");
    r
}

/// The directory part of a path, when it has one.
#[verifier::loop_isolation(false)]
pub fn parent_dir_of(path: &String) -> (r: Option<String>)
    ensures
        match r {
            Some(d) => spec_parent_dir(path@) == Some(d@),
            None => spec_parent_dir(path@) is None,
        },
{
    let sl = path.as_str();
    let n = sl.unicode_len();
    if n == 0 {
        return None;
    }
    let mut i: usize = n;
    while i > 0
        invariant
            i <= n,
            n == path@.len(),
            spec_rfind_slash(path@, n - 1) == spec_rfind_slash(path@, i - 1),
        decreases i,
    {
        if sl.get_char(i - 1) == '/' {
            let d = sl.substring_char(0, i - 1);
            proof {
                assert(path@.take(i - 1) =~= path@.subrange(0, i - 1));
            }
            return Some(d.to_owned());
        }
        i -= 1;
    }
    None
}

/// Decides and plans one output file. The caller reads `existing` from disk
/// beforehand and performs the returned actions in order afterwards.
pub fn process_single_file(
    path: &String,
    content: &String,
    existing: &Option<String>,
    overwrite: bool,
    force: bool,
) -> (r: (ReconcileDecision, Vec<FsAction>))
    ensures
        r.0 == spec_decide(spec_existing_view(*existing), content@, overwrite, force),
        r.1@.map_values(|a: FsAction| a@) == spec_plan_single(
            path@,
            content@,
            spec_existing_view(*existing),
            overwrite,
            force,
        ),
{
    let ghost goal = spec_plan_single(
        path@,
        content@,
        spec_existing_view(*existing),
        overwrite,
        force,
    );
    let mut actions: Vec<FsAction> = Vec::new();
    let decision: ReconcileDecision;
    match existing {
        None => {
            match parent_dir_of(path) {
                Some(d) => {
                    proof {
                        assert(goal =~~= seq![
                            FsActionView::CreateDirAll { path: d@ },
                            FsActionView::WriteFile { path: path@, content: content@ },
                        ]);
                    }
                    actions.push(FsAction::CreateDirAll { path: d });
                },
                None => {
                    proof {
                        assert(goal =~~= seq![
                            FsActionView::WriteFile { path: path@, content: content@ },
                        ]);
                    }
                },
            }
            actions.push(FsAction::WriteFile { path: path.clone(), content: content.clone() });
            decision = ReconcileDecision::Create;
        },
        Some(e) => {
            proof {
                assert(spec_existing_view(*existing) == Some(e@));
            }
            if overwrite {
                if crate::text::str_equal(e.as_str(), content.as_str()) {
                    proof {
                        assert(goal =~~= Seq::<FsActionView>::empty());
                    }
                    decision = ReconcileDecision::NoChange;
                } else {
                    proof {
                        assert(goal =~~= seq![
                            FsActionView::CopyFile {
                                from: path@,
                                to: spec_backup_path(path@),
                            },
                            FsActionView::WriteFile { path: path@, content: content@ },
                        ]);
                    }
                    actions.push(
                        FsAction::CopyFile { from: path.clone(), to: backup_path_of(path) },
                    );
                    actions.push(
                        FsAction::WriteFile { path: path.clone(), content: content.clone() },
                    );
                    decision = ReconcileDecision::OverwriteWithBackup;
                }
            } else if force {
                proof {
                    assert(goal =~~= seq![
                        FsActionView::WriteFile { path: path@, content: content@ },
                    ]);
                }
                actions.push(
                    FsAction::WriteFile { path: path.clone(), content: content.clone() },
                );
                decision = ReconcileDecision::OverwriteForced;
            } else {
                proof {
                    assert(goal =~~= Seq::<FsActionView>::empty());
                }
                decision = ReconcileDecision::Skip;
            }
        },
    }
    proof {
        assert(actions@.map_values(|a: FsAction| a@) =~~= goal);
    }
    (decision, actions)
}

/// The view of an optional on-disk content.
pub open spec fn spec_existing_view(existing: Option<String>) -> Option<Seq<char>> {
    match existing {
        Some(e) => Some(e@),
        None => None,
    }
}

/// The plan prefix that clears a plain file standing where a multiple-mode
/// artifact's base directory belongs: back it up under overwrite, remove it
/// under force alone, leave it otherwise.
pub open spec fn spec_base_clearing(
    base: Seq<char>,
    base_is_file: bool,
    overwrite: bool,
    force: bool,
) -> Seq<FsActionView> {
    if base_is_file && overwrite {
        seq![
            FsActionView::CopyFile { from: base, to: spec_backup_path(base) },
            FsActionView::RemoveFile { path: base },
        ]
    } else if base_is_file && force {
        seq![FsActionView::RemoveFile { path: base }]
    } else {
        Seq::empty()
    }
}

/// Whether a multiple-mode plan creates its base directory: when nothing is
/// there, or when the plain file standing there is about to be cleared.
pub open spec fn spec_base_mkdir(
    base: Seq<char>,
    base_exists: bool,
    base_is_file: bool,
    overwrite: bool,
    force: bool,
) -> Seq<FsActionView> {
    if !base_exists || (base_is_file && (overwrite || force)) {
        seq![FsActionView::CreateDirAll { path: base }]
    } else {
        Seq::empty()
    }
}

/// The per-file tail of a multiple-mode plan, files planned independently in
/// order.
pub open spec fn spec_multi_plan(
    files: Seq<(Seq<char>, Seq<char>)>,
    disk: Seq<DiskEntry>,
    overwrite: bool,
    force: bool,
) -> Seq<FsActionView>
    decreases files.len(),
{
    if files.len() == 0 {
        Seq::empty()
    } else {
        spec_plan_single(
            files[0].0,
            files[0].1,
            spec_disk_lookup(disk, files[0].0),
            overwrite,
            force,
        ) + spec_multi_plan(files.drop_first(), disk, overwrite, force)
    }
}

/// The per-file decisions of a multiple-mode plan, in file order.
pub open spec fn spec_multi_decisions(
    files: Seq<(Seq<char>, Seq<char>)>,
    disk: Seq<DiskEntry>,
    overwrite: bool,
    force: bool,
) -> Seq<(Seq<char>, ReconcileDecision)>
    decreases files.len(),
{
    if files.len() == 0 {
        Seq::empty()
    } else {
        seq![
            (
                files[0].0,
                spec_decide(
                    spec_disk_lookup(disk, files[0].0),
                    files[0].1,
                    overwrite,
                    force,
                ),
            ),
        ] + spec_multi_decisions(files.drop_first(), disk, overwrite, force)
    }
}

/// One more file extends a multiple-mode plan by that file's plan.
#[verifier::rlimit(80)]
proof fn lemma_multi_plan_take_step(
    files: Seq<(Seq<char>, Seq<char>)>,
    i: int,
    disk: Seq<DiskEntry>,
    overwrite: bool,
    force: bool,
)
    requires
        0 <= i < files.len(),
    ensures
        spec_multi_plan(files.take(i + 1), disk, overwrite, force) == spec_multi_plan(
            files.take(i),
            disk,
            overwrite,
            force,
        ) + spec_plan_single(
            files[i].0,
            files[i].1,
            spec_disk_lookup(disk, files[i].0),
            overwrite,
            force,
        ),
        spec_multi_decisions(files.take(i + 1), disk, overwrite, force) == spec_multi_decisions(
            files.take(i),
            disk,
            overwrite,
            force,
        ).push(
            (
                files[i].0,
                spec_decide(spec_disk_lookup(disk, files[i].0), files[i].1, overwrite, force),
            ),
        ),
    decreases i,
{
    let single = |j: int|
        spec_plan_single(
            files[j].0,
            files[j].1,
            spec_disk_lookup(disk, files[j].0),
            overwrite,
            force,
        );
    if i == 0 {
        assert(files.take(1)[0] == files[0]);
        assert(files.take(1).drop_first() =~= Seq::<(Seq<char>, Seq<char>)>::empty());
        assert(files.take(0) =~= Seq::<(Seq<char>, Seq<char>)>::empty());
        assert(single(0) + Seq::<FsActionView>::empty() =~= Seq::<FsActionView>::empty() + single(
            0,
        ));
        assert(seq![
            (
                files[0].0,
                spec_decide(spec_disk_lookup(disk, files[0].0), files[0].1, overwrite, force),
            ),
        ] + Seq::<(Seq<char>, ReconcileDecision)>::empty() =~= Seq::<
            (Seq<char>, ReconcileDecision),
        >::empty().push(
            (
                files[0].0,
                spec_decide(spec_disk_lookup(disk, files[0].0), files[0].1, overwrite, force),
            ),
        ));
    } else {
        lemma_multi_plan_take_step(files.drop_first(), i - 1, disk, overwrite, force);
        assert(files.take(i + 1)[0] == files[0]);
        assert(files.take(i)[0] == files[0]);
        assert(files.take(i + 1).drop_first() =~= files.drop_first().take(i));
        assert(files.take(i).drop_first() =~= files.drop_first().take(i - 1));
        assert(files.drop_first()[i - 1] == files[i]);
        let head = single(0);
        let mid = spec_multi_plan(files.drop_first().take(i - 1), disk, overwrite, force);
        let last = spec_plan_single(
            files[i].0,
            files[i].1,
            spec_disk_lookup(disk, files[i].0),
            overwrite,
            force,
        );
        assert(head + (mid + last) =~= (head + mid) + last);
        let dhead = seq![
            (
                files[0].0,
                spec_decide(spec_disk_lookup(disk, files[0].0), files[0].1, overwrite, force),
            ),
        ];
        let dmid = spec_multi_decisions(files.drop_first().take(i - 1), disk, overwrite, force);
        let dlast = (
            files[i].0,
            spec_decide(spec_disk_lookup(disk, files[i].0), files[i].1, overwrite, force),
        );
        assert(dhead + dmid.push(dlast) =~= (dhead + dmid).push(dlast));
    }
}

/// Decides and plans a whole multiple-mode artifact: clear a colliding plain
/// file at the base path, create the base directory as needed, then plan
/// every named file independently.
#[verifier::loop_isolation(false)]
#[verifier::rlimit(60)]
pub fn plan_multiple(
    base: &String,
    files: &Vec<(String, String)>,
    base_exists: bool,
    base_is_file: bool,
    disk: &DiskState,
    overwrite: bool,
    force: bool,
) -> (r: (Vec<(String, ReconcileDecision)>, Vec<FsAction>))
    ensures
        r.0@.map_values(|d: (String, ReconcileDecision)| (d.0@, d.1)) == spec_multi_decisions(
            files@.map_values(|p: (String, String)| (p.0@, p.1@)),
            disk.entries@,
            overwrite,
            force,
        ),
        r.1@.map_values(|a: FsAction| a@) == spec_base_clearing(
            base@,
            base_is_file,
            overwrite,
            force,
        ) + spec_base_mkdir(base@, base_exists, base_is_file, overwrite, force) + spec_multi_plan(
            files@.map_values(|p: (String, String)| (p.0@, p.1@)),
            disk.entries@,
            overwrite,
            force,
        ),
{
    let ghost fviews = files@.map_values(|p: (String, String)| (p.0@, p.1@));
    let mut decisions: Vec<(String, ReconcileDecision)> = Vec::new();
    let mut actions: Vec<FsAction> = Vec::new();
    if base_is_file && overwrite {
        actions.push(FsAction::CopyFile { from: base.clone(), to: backup_path_of(base) });
        actions.push(FsAction::RemoveFile { path: base.clone() });
    } else if base_is_file && force {
        actions.push(FsAction::RemoveFile { path: base.clone() });
    }
    if !base_exists || (base_is_file && (overwrite || force)) {
        actions.push(FsAction::CreateDirAll { path: base.clone() });
    }
    let ghost prefix = spec_base_clearing(base@, base_is_file, overwrite, force)
        + spec_base_mkdir(base@, base_exists, base_is_file, overwrite, force);
    proof {
        assert(actions@.map_values(|a: FsAction| a@) =~~= prefix);
        assert(fviews.take(0) =~= Seq::<(Seq<char>, Seq<char>)>::empty());
        assert(prefix + Seq::<FsActionView>::empty() =~= prefix);
        assert(decisions@.map_values(|d: (String, ReconcileDecision)| (d.0@, d.1)) =~= Seq::<
            (Seq<char>, ReconcileDecision),
        >::empty());
    }
    let mut idx: usize = 0;
    while idx < files.len()
        invariant
            idx <= files@.len(),
            fviews == files@.map_values(|p: (String, String)| (p.0@, p.1@)),
            decisions@.map_values(|d: (String, ReconcileDecision)| (d.0@, d.1))
                == spec_multi_decisions(
                fviews.take(idx as int),
                disk.entries@,
                overwrite,
                force,
            ),
            actions@.map_values(|a: FsAction| a@) == prefix + spec_multi_plan(
                fviews.take(idx as int),
                disk.entries@,
                overwrite,
                force,
            ),
        decreases files@.len() - idx,
    {
        let ghost pre_actions = actions@;
        let ghost pre_decisions = decisions@;
        let path = &files[idx].0;
        let content = &files[idx].1;
        proof {
            assert(fviews[idx as int] == (path@, content@));
        }
        let existing: Option<String> = match disk.lookup(path.as_str()) {
            Some(c) => Some(c.clone()),
            None => None,
        };
        let (decision, mut file_actions) = process_single_file(
            path,
            content,
            &existing,
            overwrite,
            force,
        );
        let ghost fa = file_actions@;
        decisions.push((path.clone(), decision));
        let mut k: usize = 0;
        while k < file_actions.len()
            invariant
                k <= file_actions@.len(),
                file_actions@ == fa,
                actions@ == pre_actions + fa.take(k as int),
            decreases file_actions@.len() - k,
        {
            let a = copy_action(&file_actions[k]);
            actions.push(a);
            proof {
                assert(pre_actions + fa.take(k as int + 1) =~= (pre_actions + fa.take(
                    k as int,
                )).push(fa[k as int]));
            }
            k += 1;
        }
        proof {
            assert(fa.take(fa.len() as int) =~= fa);
            lemma_multi_plan_take_step(fviews, idx as int, disk.entries@, overwrite, force);
            assert(spec_existing_view(existing) == spec_disk_lookup(disk.entries@, path@));
            assert(actions@.map_values(|a: FsAction| a@) =~~= (prefix + spec_multi_plan(
                fviews.take(idx as int),
                disk.entries@,
                overwrite,
                force,
            )) + spec_plan_single(
                fviews[idx as int].0,
                fviews[idx as int].1,
                spec_disk_lookup(disk.entries@, fviews[idx as int].0),
                overwrite,
                force,
            ));
            assert((prefix + spec_multi_plan(fviews.take(idx as int), disk.entries@, overwrite,
                force)) + spec_plan_single(
                fviews[idx as int].0,
                fviews[idx as int].1,
                spec_disk_lookup(disk.entries@, fviews[idx as int].0),
                overwrite,
                force,
            ) =~~= prefix + spec_multi_plan(
                fviews.take(idx as int + 1),
                disk.entries@,
                overwrite,
                force,
            ));
            assert(decisions@.map_values(|d: (String, ReconcileDecision)| (d.0@, d.1))
                =~~= spec_multi_decisions(fviews.take(idx as int + 1), disk.entries@, overwrite,
                force));
        }
        idx += 1;
    }
    proof {
        assert(fviews.take(files@.len() as int) =~= fviews);
    }
    (decisions, actions)
}

/// Duplicates one action value.
fn copy_action(a: &FsAction) -> (r: FsAction)
    ensures
        r == *a,
{
    match a {
        FsAction::CreateDirAll { path } => FsAction::CreateDirAll { path: path.clone() },
        FsAction::CopyFile { from, to } => FsAction::CopyFile {
            from: from.clone(),
            to: to.clone(),
        },
        FsAction::RemoveFile { path } => FsAction::RemoveFile { path: path.clone() },
        FsAction::WriteFile { path, content } => FsAction::WriteFile {
            path: path.clone(),
            content: content.clone(),
        },
    }
}

/// Decides and plans one rendered artifact at its resolved location. For a
/// single artifact the location is its output file; for a multiple one it is
/// the base directory.
pub fn reconcile_artifact(
    artifact: &FormatResult,
    location: &String,
    base_exists: bool,
    base_is_file: bool,
    disk: &DiskState,
    overwrite: bool,
    force: bool,
) -> (r: (Vec<(String, ReconcileDecision)>, Vec<FsAction>))
    ensures
        match *artifact {
            FormatResult::Single(_) => {
                let content = artifact@->Single_0;
                let existing = spec_disk_lookup(disk.entries@, location@);
                r.0@.map_values(|d: (String, ReconcileDecision)| (d.0@, d.1)) == seq![
                    (location@, spec_decide(existing, content, overwrite, force)),
                ] && r.1@.map_values(|a: FsAction| a@) == spec_plan_single(
                    location@,
                    content,
                    existing,
                    overwrite,
                    force,
                )
            },
            FormatResult::Multiple(_) => {
                let files = artifact@->Multiple_0;
                r.0@.map_values(|d: (String, ReconcileDecision)| (d.0@, d.1))
                    == spec_multi_decisions(files, disk.entries@, overwrite, force)
                    && r.1@.map_values(|a: FsAction| a@) == spec_base_clearing(
                    location@,
                    base_is_file,
                    overwrite,
                    force,
                ) + spec_base_mkdir(location@, base_exists, base_is_file, overwrite, force)
                    + spec_multi_plan(files, disk.entries@, overwrite, force)
            },
        },
{
    match artifact {
        FormatResult::Single(content) => {
            let existing: Option<String> = match disk.lookup(location.as_str()) {
                Some(c) => Some(c.clone()),
                None => None,
            };
            let (decision, actions) = process_single_file(
                location,
                content,
                &existing,
                overwrite,
                force,
            );
            let mut decisions: Vec<(String, ReconcileDecision)> = Vec::new();
            decisions.push((location.clone(), decision));
            proof {
                assert(decisions@.map_values(|d: (String, ReconcileDecision)| (d.0@, d.1)) =~~= seq![
                    (
                        location@,
                        spec_decide(
                            spec_disk_lookup(disk.entries@, location@),
                            content@,
                            overwrite,
                            force,
                        ),
                    ),
                ]);
            }
            (decisions, actions)
        },
        FormatResult::Multiple(files) => {
            plan_multiple(location, files, base_exists, base_is_file, disk, overwrite, force)
        },
    }
}

/// What a sequence of filesystem steps does to an abstract disk, a map from
/// path to file content. Directory creation touches no file; a copy reads
/// its source on the disk it runs against.
pub open spec fn spec_apply_action(
    disk: Map<Seq<char>, Seq<char>>,
    a: FsActionView,
) -> Map<Seq<char>, Seq<char>> {
    match a {
        FsActionView::CreateDirAll { .. } => disk,
        FsActionView::CopyFile { from, to } => if disk.contains_key(from) {
            disk.insert(to, disk[from])
        } else {
            disk
        },
        FsActionView::RemoveFile { path } => disk.remove(path),
        FsActionView::WriteFile { path, content } => disk.insert(path, content),
    }
}

/// Applies the steps in order.
pub open spec fn spec_apply(
    disk: Map<Seq<char>, Seq<char>>,
    actions: Seq<FsActionView>,
) -> Map<Seq<char>, Seq<char>>
    decreases actions.len(),
{
    if actions.len() == 0 {
        disk
    } else {
        spec_apply(spec_apply_action(disk, actions[0]), actions.drop_first())
    }
}

/// Under overwrite, identical content changes nothing: the decision is
/// NoChange, the plan is empty — no write and no backup — and the disk keeps
/// every path as it was.
pub proof fn lemma_overwrite_identical_no_change(
    path: Seq<char>,
    content: Seq<char>,
    force: bool,
    disk: Map<Seq<char>, Seq<char>>,
)
    ensures
        spec_decide(Some(content), content, true, force) == ReconcileDecision::NoChange,
        spec_plan_single(path, content, Some(content), true, force) == Seq::<FsActionView>::empty(),
        spec_apply(disk, spec_plan_single(path, content, Some(content), true, force)) == disk,
{
    assert(spec_plan_single(path, content, Some(content), true, force)
        =~= Seq::<FsActionView>::empty());
}

/// Under overwrite, differing content makes exactly one backup: the plan is
/// the copy to the backup path then the write, so afterwards the backup path
/// holds the prior content verbatim and the primary path holds the new.
pub proof fn lemma_overwrite_differing_backs_up(
    path: Seq<char>,
    content: Seq<char>,
    prior: Seq<char>,
    force: bool,
    disk: Map<Seq<char>, Seq<char>>,
)
    requires
        prior != content,
        disk.contains_key(path),
        disk[path] == prior,
    ensures
        spec_decide(Some(prior), content, true, force) == ReconcileDecision::OverwriteWithBackup,
        spec_plan_single(path, content, Some(prior), true, force) == seq![
            FsActionView::CopyFile { from: path, to: spec_backup_path(path) },
            FsActionView::WriteFile { path, content },
        ],
        ({
            let disk2 = spec_apply(disk, spec_plan_single(path, content, Some(prior), true, force));
            disk2[spec_backup_path(path)] == prior && disk2[path] == content
                && disk2.contains_key(spec_backup_path(path)) && disk2.contains_key(path)
        }),
{
    let plan = spec_plan_single(path, content, Some(prior), true, force);
    assert(plan =~~= seq![
        FsActionView::CopyFile { from: path, to: spec_backup_path(path) },
        FsActionView::WriteFile { path, content },
    ]);
    let d1 = spec_apply_action(disk, plan[0]);
    assert(plan.drop_first() =~~= seq![FsActionView::WriteFile { path, content }]);
    assert(plan.drop_first().drop_first() =~~= Seq::<FsActionView>::empty());
    let d2 = spec_apply_action(d1, FsActionView::WriteFile { path, content });
    assert(spec_apply(disk, plan) == spec_apply(d1, plan.drop_first()));
    assert(spec_apply(d1, plan.drop_first()) == spec_apply(d2, plan.drop_first().drop_first()));
    assert(spec_apply(d2, plan.drop_first().drop_first()) == d2);
    assert(path != spec_backup_path(path)) by {
        reveal_strlit(".bak");
        assert(spec_backup_path(path).len() == path.len() + 4);
    }
}

/// Force alone never backs up: with overwrite clear, no plan step is a copy,
/// whatever the contents compare to.
pub proof fn lemma_force_never_backs_up(
    path: Seq<char>,
    content: Seq<char>,
    existing: Option<Seq<char>>,
)
    ensures
        forall|i: int|
            0 <= i < spec_plan_single(path, content, existing, false, true).len() ==> !(
            #[trigger] spec_plan_single(path, content, existing, false, true)[i] is CopyFile),
{
}

} // verus!
