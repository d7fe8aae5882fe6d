//! Gathering the vcpkg ports, the triplet and the vcpkg source that the
//! packages of a workspace declare into one install set.

use vstd::prelude::*;
use crate::text::strs;

verus! {

/// Settings of a package for one rust target; each field that is present
/// applies when building for that target.
pub struct TargetOverride {
    /// The vcpkg triplet to install; honoured only on the root package.
    pub triplet: Option<String>,
    /// Replaces the package's general dependency list when present, even
    /// when empty.
    pub dependencies: Option<Vec<String>>,
    /// Installed too, but only for the root package.
    pub dev_dependencies: Option<Vec<String>>,
}

/// The vcpkg metadata of one package.
pub struct PackageDeclaration {
    /// The repository to clone vcpkg from; honoured only on the root package.
    pub git: Option<String>,
    pub branch: Option<String>,
    pub tag: Option<String>,
    pub rev: Option<String>,
    pub dependencies: Option<Vec<String>>,
    pub dev_dependencies: Option<Vec<String>>,
    /// Settings per rust target, by target name. The names are unique, as
    /// the keys of the metadata table they come from (see
    /// `unique_target_names`); were one repeated, its first entry applies.
    pub targets: Vec<(String, TargetOverride)>,
}

/// A package of the workspace: its identity and its vcpkg metadata, if it
/// has any. Identities are unique within a workspace.
pub struct WorkspacePackage {
    pub id: String,
    pub declaration: Option<PackageDeclaration>,
}

/// Which revision of the vcpkg repository to check out.
pub enum RevSelector {
    Rev(String),
    Tag(String),
    Branch(String),
}

/// What a [`RevSelector`] holds.
pub enum RevSelectorView {
    Rev(Seq<char>),
    Tag(Seq<char>),
    Branch(Seq<char>),
}

impl View for RevSelector {
    type V = RevSelectorView;

    open spec fn view(&self) -> RevSelectorView {
        match self {
            RevSelector::Rev(s) => RevSelectorView::Rev(s@),
            RevSelector::Tag(s) => RevSelectorView::Tag(s@),
            RevSelector::Branch(s) => RevSelectorView::Branch(s@),
        }
    }
}

/// How a revision is checked out: what it is called, its name, and whether a
/// pull must follow the checkout (only a branch moves).
pub open spec fn checkout_plan(s: RevSelectorView) -> (Seq<char>, Seq<char>, bool) {
    match s {
        RevSelectorView::Rev(r) => ("rev"@, r, false),
        RevSelectorView::Tag(t) => ("tag"@, t, false),
        RevSelectorView::Branch(b) => ("branch"@, b, true),
    }
}

impl RevSelector {
    /// What the revision is called, its name, and whether the checkout must
    /// be followed by a pull.
    pub fn checkout(&self) -> (r: (&'static str, String, bool))
        ensures
            r.0@ == checkout_plan(self@).0,
            r.1@ == checkout_plan(self@).1,
            r.2 == checkout_plan(self@).2,
    {
        match self {
            RevSelector::Rev(r) => ("rev", r.clone(), false),
            RevSelector::Tag(t) => ("tag", t.clone(), false),
            RevSelector::Branch(b) => ("branch", b.clone(), true),
        }
    }
}

/// Where to get vcpkg from: a repository and a revision in it.
pub struct SourceLocator {
    pub git: String,
    pub selector: RevSelector,
}

/// The outcome of a resolution: the ports to install, in the order they were
/// found and with repetitions, the triplet and the vcpkg source.
pub struct ResolvedInstallSet {
    pub ports: Vec<String>,
    pub triplet: Option<String>,
    pub source: Option<SourceLocator>,
}

/// What a [`ResolvedInstallSet`] holds.
pub struct ResolvedView {
    pub ports: Seq<Seq<char>>,
    pub triplet: Option<Seq<char>>,
    pub source: Option<(Seq<char>, RevSelectorView)>,
}

/// The view of an optional string.
pub open spec fn opt_view(o: Option<String>) -> Option<Seq<char>> {
    match o {
        Some(s) => Some(s@),
        None => None,
    }
}

/// The view of an optional vcpkg source.
pub open spec fn source_view(o: Option<SourceLocator>) -> Option<(Seq<char>, RevSelectorView)> {
    match o {
        Some(s) => Some((s.git@, s.selector@)),
        None => None,
    }
}

impl View for ResolvedInstallSet {
    type V = ResolvedView;

    open spec fn view(&self) -> ResolvedView {
        ResolvedView {
            ports: strs(self.ports@),
            triplet: opt_view(self.triplet),
            source: source_view(self.source),
        }
    }
}

/// Why a workspace cannot be resolved.
#[derive(PartialEq, Eq, Structural, Clone, Copy, Debug)]
pub enum ResolveError {
    /// The workspace has no root package (a virtual manifest).
    NoRootPackage,
    /// A vcpkg source names none, or more than one, of branch, tag and rev.
    AmbiguousSourceRevision,
}

/// The message shown for each resolution error.
pub open spec fn resolve_message(e: ResolveError) -> Seq<char> {
    match e {
        ResolveError::NoRootPackage => "cannot run on a virtual manifest, this command requires running against an actual package in this workspace."@,
        ResolveError::AmbiguousSourceRevision => "must specify one of branch,rev,tag for git source"@,
    }
}

impl ResolveError {
    /// The message shown to a user.
    pub fn message(&self) -> (r: &'static str)
        ensures
            r@ == resolve_message(*self),
    {
        match self {
            ResolveError::NoRootPackage => "cannot run on a virtual manifest, this command requires running against an actual package in this workspace.",
            ResolveError::AmbiguousSourceRevision => "must specify one of branch,rev,tag for git source",
        }
    }
}

/// The part a package plays in a resolution: only the root package's triplet,
/// source and dev-dependencies count.
#[derive(PartialEq, Eq, Structural, Clone, Copy, Debug)]
pub enum Role {
    Root,
    Dependency,
}

/// The entries of an optional list; none when it is absent.
pub open spec fn list_of(o: Option<Vec<String>>) -> Seq<Seq<char>> {
    match o {
        Some(v) => strs(v@),
        None => seq![],
    }
}

/// The settings that apply to `target`: those of the first entry with its name.
pub open spec fn override_for(targets: Seq<(String, TargetOverride)>, target: Seq<char>) -> Option<
    TargetOverride,
>
    decreases targets.len(),
{
    if targets.len() == 0 {
        None
    } else if targets[0].0@ == target {
        Some(targets[0].1)
    } else {
        override_for(targets.drop_first(), target)
    }
}

/// No two target entries of `d` share a name.
pub open spec fn unique_target_names(d: PackageDeclaration) -> bool {
    forall|i: int, j: int|
        0 <= i < j < d.targets@.len() ==> #[trigger] d.targets@[i].0@ != #[trigger] d.targets@[j].0@
}

/// No package but the one at `i` has the identity `root`.
pub open spec fn only_root_at(pkgs: Seq<WorkspacePackage>, root: Seq<char>, i: int) -> bool {
    0 <= i < pkgs.len() && pkgs[i].id@ == root && forall|j: int|
        0 <= j < pkgs.len() && j != i ==> #[trigger] pkgs[j].id@ != root
}

/// The ports that a package in role `role` adds to the install set.
pub open spec fn contribution(d: PackageDeclaration, role: Role, target: Seq<char>) -> Seq<
    Seq<char>,
> {
    match override_for(d.targets@, target) {
        Some(o) => (if o.dependencies is Some {
            list_of(o.dependencies)
        } else {
            list_of(d.dependencies)
        }) + (if role == Role::Root {
            list_of(o.dev_dependencies)
        } else {
            seq![]
        }),
        None => list_of(d.dependencies) + (if role == Role::Root {
            list_of(d.dev_dependencies)
        } else {
            seq![]
        }),
    }
}

/// The triplet that a package in role `role` chooses, if any.
pub open spec fn variant_of(d: PackageDeclaration, role: Role, target: Seq<char>) -> Option<
    Seq<char>,
> {
    if role == Role::Root {
        match override_for(d.targets@, target) {
            Some(o) => opt_view(o.triplet),
            None => None,
        }
    } else {
        None
    }
}

/// The revision named by exactly one of `branch`, `tag` and `rev`, if
/// exactly one is given.
pub open spec fn selector_of(branch: Option<String>, tag: Option<String>, rev: Option<String>) -> Option<
    RevSelectorView,
> {
    match (branch, tag, rev) {
        (Some(b), None, None) => Some(RevSelectorView::Branch(b@)),
        (None, Some(t), None) => Some(RevSelectorView::Tag(t@)),
        (None, None, Some(r)) => Some(RevSelectorView::Rev(r@)),
        _ => None,
    }
}

/// The role of `p` in a workspace whose root package is `root`.
pub open spec fn role_of(p: WorkspacePackage, root: Seq<char>) -> Role {
    if p.id@ == root {
        Role::Root
    } else {
        Role::Dependency
    }
}

/// The ports that `p` adds to the install set.
pub open spec fn package_ports(p: WorkspacePackage, root: Seq<char>, target: Seq<char>) -> Seq<
    Seq<char>,
> {
    match p.declaration {
        Some(d) => contribution(d, role_of(p, root), target),
        None => seq![],
    }
}

/// The ports of all packages, in the order of the packages.
pub open spec fn ports_of(pkgs: Seq<WorkspacePackage>, root: Seq<char>, target: Seq<char>) -> Seq<
    Seq<char>,
>
    decreases pkgs.len(),
{
    if pkgs.len() == 0 {
        seq![]
    } else {
        ports_of(pkgs.drop_last(), root, target) + package_ports(pkgs.last(), root, target)
    }
}

/// The triplet that `p` chooses, if any.
pub open spec fn package_variant(p: WorkspacePackage, root: Seq<char>, target: Seq<char>) -> Option<
    Seq<char>,
> {
    match p.declaration {
        Some(d) => variant_of(d, role_of(p, root), target),
        None => None,
    }
}

/// The triplet chosen by the last package that chooses one.
pub open spec fn variant_in(pkgs: Seq<WorkspacePackage>, root: Seq<char>, target: Seq<char>) -> Option<
    Seq<char>,
>
    decreases pkgs.len(),
{
    if pkgs.len() == 0 {
        None
    } else {
        match package_variant(pkgs.last(), root, target) {
            Some(v) => Some(v),
            None => variant_in(pkgs.drop_last(), root, target),
        }
    }
}

/// The vcpkg source that `p` gives, if it is the root package and gives a
/// repository with exactly one revision.
pub open spec fn package_source(p: WorkspacePackage, root: Seq<char>) -> Option<
    (Seq<char>, RevSelectorView),
> {
    match p.declaration {
        Some(d) => if role_of(p, root) == Role::Root && d.git is Some && selector_of(
            d.branch,
            d.tag,
            d.rev,
        ) is Some {
            Some((d.git->0@, selector_of(d.branch, d.tag, d.rev)->0))
        } else {
            None
        },
        None => None,
    }
}

/// The vcpkg source given by the last package that gives one.
pub open spec fn source_in(pkgs: Seq<WorkspacePackage>, root: Seq<char>) -> Option<
    (Seq<char>, RevSelectorView),
>
    decreases pkgs.len(),
{
    if pkgs.len() == 0 {
        None
    } else {
        match package_source(pkgs.last(), root) {
            Some(s) => Some(s),
            None => source_in(pkgs.drop_last(), root),
        }
    }
}

/// `p` is the root package and gives a repository without exactly one revision.
pub open spec fn package_ambiguous(p: WorkspacePackage, root: Seq<char>) -> bool {
    match p.declaration {
        Some(d) => role_of(p, root) == Role::Root && d.git is Some && selector_of(
            d.branch,
            d.tag,
            d.rev,
        ) is None,
        None => false,
    }
}

/// The outcome of resolving the workspace `pkgs` with root package `root`
/// for the rust target `target`.
pub open spec fn resolve_spec(
    pkgs: Seq<WorkspacePackage>,
    root: Option<Seq<char>>,
    target: Seq<char>,
) -> Result<ResolvedView, ResolveError> {
    match root {
        None => Err(ResolveError::NoRootPackage),
        Some(r) => if exists|i: int| 0 <= i < pkgs.len() && package_ambiguous(pkgs[i], r) {
            Err(ResolveError::AmbiguousSourceRevision)
        } else {
            Ok(
                ResolvedView {
                    ports: ports_of(pkgs, r, target),
                    triplet: variant_in(pkgs, r, target),
                    source: source_in(pkgs, r),
                },
            )
        },
    }
}

/// The view of a resolution's result.
pub open spec fn resolved_result(r: Result<ResolvedInstallSet, ResolveError>) -> Result<
    ResolvedView,
    ResolveError,
> {
    match r {
        Ok(s) => Ok(s@),
        Err(e) => Err(e),
    }
}

/// Copies a string option.
fn clone_opt(o: &Option<String>) -> (r: Option<String>)
    ensures
        opt_view(r) == opt_view(*o),
        r is Some == o is Some,
{
    match o {
        Some(s) => Some(s.clone()),
        None => None,
    }
}

/// The revision of a vcpkg source, which must name exactly one of a branch,
/// a tag and a rev.
pub fn select_revision(branch: &Option<String>, tag: &Option<String>, rev: &Option<String>) -> (r:
    Result<RevSelector, ResolveError>)
    ensures
        match selector_of(*branch, *tag, *rev) {
            Some(s) => r is Ok && r->Ok_0@ == s,
            None => r == Err::<RevSelector, ResolveError>(ResolveError::AmbiguousSourceRevision),
        },
{
    match (branch, tag, rev) {
        (Some(b), None, None) => Ok(RevSelector::Branch(b.clone())),
        (None, Some(t), None) => Ok(RevSelector::Tag(t.clone())),
        (None, None, Some(r)) => Ok(RevSelector::Rev(r.clone())),
        _ => Err(ResolveError::AmbiguousSourceRevision),
    }
}

/// Appends the entries of `list` to `ports`.
fn extend_ports(ports: &mut Vec<String>, list: &Vec<String>)
    ensures
        strs(final(ports)@) == strs(old(ports)@) + strs(list@),
{
    let mut i: usize = 0;
    while i < list.len()
        invariant
            i <= list@.len(),
            strs(ports@) == strs(old(ports)@) + strs(list@.subrange(0, i as int)),
        decreases list@.len() - i,
    {
        let entry = list[i].clone();
        assert(entry@ == list@[i as int]@);
        let ghost before = ports@;
        ports.push(entry);
        assert(strs(ports@) =~= strs(before).push(entry@));
        assert(strs(list@.subrange(0, i + 1)) =~= strs(list@.subrange(0, i as int)).push(entry@));
        i += 1;
        assert(strs(ports@) =~= strs(old(ports)@) + strs(list@.subrange(0, i as int)));
    }
    assert(list@.subrange(0, i as int) =~= list@);
}

/// Appends the entries of an optional list to `ports`.
fn extend_ports_opt(ports: &mut Vec<String>, list: &Option<Vec<String>>)
    ensures
        strs(final(ports)@) == strs(old(ports)@) + list_of(*list),
{
    match list {
        Some(l) => extend_ports(ports, l),
        None => {
            assert(strs(ports@) =~= strs(ports@) + seq![]);
        },
    }
}

/// The position of the settings that apply to `target`, if any.
fn find_override(targets: &Vec<(String, TargetOverride)>, target: &String) -> (r: Option<usize>)
    ensures
        match r {
            Some(i) => i < targets@.len() && override_for(targets@, target@) == Some(
                targets@[i as int].1,
            ),
            None => override_for(targets@, target@) is None,
        },
{
    let ghost n = targets@.len() as int;
    assert(targets@.subrange(0, n) =~= targets@);
    let mut i: usize = 0;
    while i < targets.len()
        invariant
            n == targets@.len(),
            i <= n,
            override_for(targets@, target@) == override_for(targets@.subrange(i as int, n), target@),
        decreases n - i,
    {
        let ghost rest = targets@.subrange(i as int, n);
        assert(rest[0] == targets@[i as int]);
        if targets[i].0 == *target {
            return Some(i);
        }
        assert(rest.drop_first() =~= targets@.subrange(i + 1, n));
        i += 1;
    }
    None
}

/// Adds the ports of a package in role `role` to `ports`, and returns the
/// triplet it chooses.
fn merge_package(
    d: &PackageDeclaration,
    role: Role,
    target: &String,
    ports: &mut Vec<String>,
) -> (r: Option<String>)
    ensures
        strs(final(ports)@) == strs(old(ports)@) + contribution(*d, role, target@),
        opt_view(r) == variant_of(*d, role, target@),
{
    match find_override(&d.targets, target) {
        Some(i) => {
            let o = &d.targets[i].1;
            if o.dependencies.is_some() {
                extend_ports_opt(ports, &o.dependencies);
            } else {
                extend_ports_opt(ports, &d.dependencies);
            }
            if role == Role::Root {
                extend_ports_opt(ports, &o.dev_dependencies);
                clone_opt(&o.triplet)
            } else {
                assert(strs(ports@) =~= strs(ports@) + seq![]);
                None
            }
        },
        None => {
            extend_ports_opt(ports, &d.dependencies);
            if role == Role::Root {
                extend_ports_opt(ports, &d.dev_dependencies);
            } else {
                assert(strs(ports@) =~= strs(ports@) + seq![]);
            }
            None
        },
    }
}

/// Gathers the ports to install for the rust target `target` from the
/// packages of a workspace whose root package is `root`.
///
/// Each package adds its dependencies, or those of its settings for
/// `target`; only the root package adds dev-dependencies, chooses the triplet
/// and gives the vcpkg source.
pub fn resolve(packages: &Vec<WorkspacePackage>, root: &Option<String>, target: &str) -> (r: Result<
    ResolvedInstallSet,
    ResolveError,
>)
    ensures
        resolved_result(r) == resolve_spec(packages@, opt_view(*root), target@),
        root is None ==> r == Err::<ResolvedInstallSet, ResolveError>(ResolveError::NoRootPackage),
{
    let root_id = match root {
        Some(id) => id,
        None => return Err(ResolveError::NoRootPackage),
    };
    let target = String::from_str(target);
    let ghost pkgs = packages@;
    let ghost rv = root_id@;
    let mut ports: Vec<String> = Vec::new();
    let mut triplet: Option<String> = None;
    let mut source: Option<SourceLocator> = None;
    let mut i: usize = 0;
    assert(strs(ports@) =~= seq![]);
    while i < packages.len()
        invariant
            pkgs == packages@,
            rv == root_id@,
            opt_view(*root) == Some(rv),
            i <= pkgs.len(),
            strs(ports@) == ports_of(pkgs.subrange(0, i as int), rv, target@),
            opt_view(triplet) == variant_in(pkgs.subrange(0, i as int), rv, target@),
            source_view(source) == source_in(pkgs.subrange(0, i as int), rv),
            forall|j: int| 0 <= j < i ==> !package_ambiguous(#[trigger] pkgs[j], rv),
        decreases pkgs.len() - i,
    {
        let p = &packages[i];
        let ghost next = pkgs.subrange(0, i + 1);
        assert(next.drop_last() =~= pkgs.subrange(0, i as int));
        assert(next.last() == pkgs[i as int]);
        match &p.declaration {
            Some(d) => {
                let role = if p.id == *root_id {
                    Role::Root
                } else {
                    Role::Dependency
                };
                if role == Role::Root && d.git.is_some() {
                    match select_revision(&d.branch, &d.tag, &d.rev) {
                        Ok(selector) => {
                            source = Some(
                                SourceLocator { git: d.git.clone().unwrap(), selector },
                            );
                        },
                        Err(e) => {
                            assert(package_ambiguous(pkgs[i as int], rv));
                            return Err(e);
                        },
                    }
                }
                let chosen = merge_package(d, role, &target, &mut ports);
                if chosen.is_some() {
                    triplet = chosen;
                }
            },
            None => {
                assert(strs(ports@) =~= strs(ports@) + seq![]);
            },
        }
        i += 1;
    }
    assert(pkgs.subrange(0, i as int) =~= pkgs);
    Ok(ResolvedInstallSet { ports, triplet, source })
}

/// Two settings for a target give a package the same dependency list.
pub open spec fn same_override_dependencies(o1: TargetOverride, o2: TargetOverride) -> bool {
    (o1.dependencies is Some <==> o2.dependencies is Some) && list_of(o1.dependencies) == list_of(
        o2.dependencies,
    )
}

/// Two declarations give a package that is not the root the same ports:
/// the same general dependencies, and targets with the same names and the
/// same dependency lists.
pub open spec fn same_dependencies(d1: PackageDeclaration, d2: PackageDeclaration) -> bool {
    &&& list_of(d1.dependencies) == list_of(d2.dependencies)
    &&& d1.targets@.len() == d2.targets@.len()
    &&& forall|k: int|
        0 <= k < d1.targets@.len() ==> #[trigger] d1.targets@[k].0@ == d2.targets@[k].0@
            && same_override_dependencies(d1.targets@[k].1, d2.targets@[k].1)
}

/// Two packages count alike in a resolution with root `root`: the same
/// identity, and the same declaration for the root, the same dependency
/// lists for any other.
pub open spec fn package_agrees(p1: WorkspacePackage, p2: WorkspacePackage, root: Seq<char>) -> bool {
    &&& p1.id@ == p2.id@
    &&& if p1.id@ == root {
        p1.declaration == p2.declaration
    } else {
        match (p1.declaration, p2.declaration) {
            (Some(d1), Some(d2)) => same_dependencies(d1, d2),
            (None, None) => true,
            _ => false,
        }
    }
}

/// The settings for `target` in two target lists with the same names and
/// dependency lists sit at the same place.
proof fn lemma_override_corresponds(
    t1: Seq<(String, TargetOverride)>,
    t2: Seq<(String, TargetOverride)>,
    target: Seq<char>,
)
    requires
        t1.len() == t2.len(),
        forall|k: int|
            0 <= k < t1.len() ==> #[trigger] t1[k].0@ == t2[k].0@ && same_override_dependencies(
                t1[k].1,
                t2[k].1,
            ),
    ensures
        match (override_for(t1, target), override_for(t2, target)) {
            (Some(o1), Some(o2)) => same_override_dependencies(o1, o2),
            (None, None) => true,
            _ => false,
        },
    decreases t1.len(),
{
    if t1.len() > 0 {
        assert(t1[0].0@ == t2[0].0@);
        let r1 = t1.drop_first();
        let r2 = t2.drop_first();
        assert forall|k: int| 0 <= k < r1.len() implies #[trigger] r1[k].0@ == r2[k].0@
            && same_override_dependencies(r1[k].1, r2[k].1) by {
            assert(t1[k + 1].0@ == t2[k + 1].0@);
        }
        lemma_override_corresponds(r1, r2, target);
    }
}

/// Packages that count alike contribute alike.
proof fn lemma_package_agrees(
    p1: WorkspacePackage,
    p2: WorkspacePackage,
    root: Seq<char>,
    target: Seq<char>,
)
    requires
        package_agrees(p1, p2, root),
    ensures
        package_ports(p1, root, target) == package_ports(p2, root, target),
        package_variant(p1, root, target) == package_variant(p2, root, target),
        package_source(p1, root) == package_source(p2, root),
        package_ambiguous(p1, root) == package_ambiguous(p2, root),
{
    if p1.id@ != root {
        if let (Some(d1), Some(d2)) = (p1.declaration, p2.declaration) {
            lemma_override_corresponds(d1.targets@, d2.targets@, target);
        }
    }
}

/// Workspaces whose packages count alike, one by one, give the same ports,
/// triplet and source.
proof fn lemma_workspaces_agree(
    w1: Seq<WorkspacePackage>,
    w2: Seq<WorkspacePackage>,
    root: Seq<char>,
    target: Seq<char>,
)
    requires
        w1.len() == w2.len(),
        forall|k: int| 0 <= k < w1.len() ==> package_agrees(#[trigger] w1[k], w2[k], root),
    ensures
        ports_of(w1, root, target) == ports_of(w2, root, target),
        variant_in(w1, root, target) == variant_in(w2, root, target),
        source_in(w1, root) == source_in(w2, root),
    decreases w1.len(),
{
    if w1.len() > 0 {
        let n = w1.len() - 1;
        assert(package_agrees(w1[n], w2[n], root));
        lemma_package_agrees(w1.last(), w2.last(), root, target);
        let r1 = w1.drop_last();
        let r2 = w2.drop_last();
        assert forall|k: int| 0 <= k < r1.len() implies package_agrees(
            #[trigger] r1[k],
            r2[k],
            root,
        ) by {
            assert(package_agrees(w1[k], w2[k], root));
        }
        lemma_workspaces_agree(r1, r2, root, target);
    }
}

/// Workspaces whose packages count alike resolve alike.
proof fn lemma_resolve_agrees(
    w1: Seq<WorkspacePackage>,
    w2: Seq<WorkspacePackage>,
    root: Option<Seq<char>>,
    target: Seq<char>,
)
    requires
        w1.len() == w2.len(),
        root is Some ==> forall|k: int|
            0 <= k < w1.len() ==> package_agrees(#[trigger] w1[k], w2[k], root->0),
    ensures
        resolve_spec(w1, root, target) == resolve_spec(w2, root, target),
{
    if let Some(r) = root {
        lemma_workspaces_agree(w1, w2, r, target);
        assert forall|i: int| 0 <= i < w1.len() implies package_ambiguous(#[trigger] w1[i], r)
            == package_ambiguous(w2[i], r) by {
            lemma_package_agrees(w1[i], w2[i], r, target);
        }
        if exists|i: int| 0 <= i < w2.len() && package_ambiguous(w2[i], r) {
            let i = choose|i: int| 0 <= i < w2.len() && package_ambiguous(w2[i], r);
            assert(package_ambiguous(w1[i], r));
        }
    }
}

/// When the settings for the active target give a dependency list, that
/// list, even an empty one, stands in place of the package's general list:
/// a package that is not the root adds exactly that list, and the root adds
/// it followed by its dev-dependencies for the target.
pub proof fn override_dependencies_replace_general(
    d: PackageDeclaration,
    role: Role,
    target: Seq<char>,
    o: TargetOverride,
)
    requires
        override_for(d.targets@, target) == Some(o),
        o.dependencies is Some,
    ensures
        contribution(d, role, target) == list_of(o.dependencies) + (if role == Role::Root {
            list_of(o.dev_dependencies)
        } else {
            seq![]
        }),
        role == Role::Dependency ==> contribution(d, role, target) == list_of(o.dependencies),
{
    assert(list_of(o.dependencies) + seq![] =~= list_of(o.dependencies));
}

/// The two packages differ at most in the dev-dependency lists of a package
/// that is not the root.
pub open spec fn differ_in_non_root_dev_dependencies(
    p1: WorkspacePackage,
    p2: WorkspacePackage,
    root: Seq<char>,
) -> bool {
    &&& p1.id@ == p2.id@
    &&& if p1.id@ == root {
        p1.declaration == p2.declaration
    } else {
        match (p1.declaration, p2.declaration) {
            (Some(d1), Some(d2)) => {
                &&& d1.git == d2.git && d1.branch == d2.branch && d1.tag == d2.tag && d1.rev
                    == d2.rev
                &&& d1.dependencies == d2.dependencies
                &&& d1.targets@.len() == d2.targets@.len()
                &&& forall|k: int|
                    0 <= k < d1.targets@.len() ==> #[trigger] d1.targets@[k].0@
                        == d2.targets@[k].0@ && d1.targets@[k].1.triplet == d2.targets@[k].1.triplet
                        && d1.targets@[k].1.dependencies == d2.targets@[k].1.dependencies
            },
            (None, None) => true,
            _ => false,
        }
    }
}

/// Dev-dependencies of packages other than the root never reach the
/// resolution: two workspaces that differ only in those lists resolve to the
/// same result.
pub proof fn non_root_dev_dependencies_ignored(
    w1: Seq<WorkspacePackage>,
    w2: Seq<WorkspacePackage>,
    root: Option<Seq<char>>,
    target: Seq<char>,
)
    requires
        w1.len() == w2.len(),
        root is Some ==> forall|k: int|
            0 <= k < w1.len() ==> differ_in_non_root_dev_dependencies(
                #[trigger] w1[k],
                w2[k],
                root->0,
            ),
    ensures
        resolve_spec(w1, root, target) == resolve_spec(w2, root, target),
{
    if let Some(r) = root {
        assert forall|k: int| 0 <= k < w1.len() implies package_agrees(
            #[trigger] w1[k],
            w2[k],
            r,
        ) by {
            assert(differ_in_non_root_dev_dependencies(w1[k], w2[k], r));
        }
    }
    lemma_resolve_agrees(w1, w2, root, target);
}

/// The two packages differ at most in the root-only fields (the vcpkg source
/// and the triplets) of a package that is not the root.
pub open spec fn differ_in_non_root_root_fields(
    p1: WorkspacePackage,
    p2: WorkspacePackage,
    root: Seq<char>,
) -> bool {
    &&& p1.id@ == p2.id@
    &&& if p1.id@ == root {
        p1.declaration == p2.declaration
    } else {
        match (p1.declaration, p2.declaration) {
            (Some(d1), Some(d2)) => {
                &&& d1.dependencies == d2.dependencies
                &&& d1.dev_dependencies == d2.dev_dependencies
                &&& d1.targets@.len() == d2.targets@.len()
                &&& forall|k: int|
                    0 <= k < d1.targets@.len() ==> #[trigger] d1.targets@[k].0@
                        == d2.targets@[k].0@ && d1.targets@[k].1.dependencies
                        == d2.targets@[k].1.dependencies && d1.targets@[k].1.dev_dependencies
                        == d2.targets@[k].1.dev_dependencies
            },
            (None, None) => true,
            _ => false,
        }
    }
}

/// The vcpkg source and the triplets declared by packages other than the
/// root never affect the resolution: two workspaces that differ only in
/// those fields resolve to the same result.
pub proof fn non_root_root_fields_ignored(
    w1: Seq<WorkspacePackage>,
    w2: Seq<WorkspacePackage>,
    root: Option<Seq<char>>,
    target: Seq<char>,
)
    requires
        w1.len() == w2.len(),
        root is Some ==> forall|k: int|
            0 <= k < w1.len() ==> differ_in_non_root_root_fields(
                #[trigger] w1[k],
                w2[k],
                root->0,
            ),
    ensures
        resolve_spec(w1, root, target) == resolve_spec(w2, root, target),
{
    if let Some(r) = root {
        assert forall|k: int| 0 <= k < w1.len() implies package_agrees(
            #[trigger] w1[k],
            w2[k],
            r,
        ) by {
            assert(differ_in_non_root_root_fields(w1[k], w2[k], r));
        }
    }
    lemma_resolve_agrees(w1, w2, root, target);
}

/// The source given by the root package at `i`, which no other package
/// shares an identity with, is the last one given up to any later position.
proof fn lemma_source_of_root(pkgs: Seq<WorkspacePackage>, root: Seq<char>, i: int)
    requires
        only_root_at(pkgs, root, i),
    ensures
        source_in(pkgs, root) == package_source(pkgs[i], root) || (package_source(pkgs[i], root)
            is None && source_in(pkgs, root) is None),
    decreases pkgs.len(),
{
    let n = pkgs.len() - 1;
    if i < n {
        assert(pkgs[n].id@ != root);
        let pre = pkgs.drop_last();
        assert forall|j: int| 0 <= j < pre.len() && j != i implies #[trigger] pre[j].id@ != root by {
            assert(pkgs[j].id@ != root);
        }
        lemma_source_of_root(pre, root, i);
    } else {
        if package_source(pkgs[i], root) is None {
            lemma_no_source_without_root(pkgs.drop_last(), root);
        }
    }
}

/// A workspace with no root package gives no source.
proof fn lemma_no_source_without_root(pkgs: Seq<WorkspacePackage>, root: Seq<char>)
    requires
        forall|j: int| 0 <= j < pkgs.len() ==> #[trigger] pkgs[j].id@ != root,
    ensures
        source_in(pkgs, root) is None,
    decreases pkgs.len(),
{
    if pkgs.len() > 0 {
        assert(pkgs[pkgs.len() - 1].id@ != root);
        let pre = pkgs.drop_last();
        assert forall|j: int| 0 <= j < pre.len() implies #[trigger] pre[j].id@ != root by {
            assert(pkgs[j].id@ != root);
        }
        lemma_no_source_without_root(pre, root);
    }
}

/// A git source on the root package is adopted exactly when it names one
/// of branch, tag and rev: then resolution succeeds with that repository and
/// revision, and with none or several of them it fails with
/// `AmbiguousSourceRevision`.
pub proof fn root_source_adoption(
    pkgs: Seq<WorkspacePackage>,
    root: Seq<char>,
    target: Seq<char>,
    i: int,
    d: PackageDeclaration,
)
    requires
        only_root_at(pkgs, root, i),
        pkgs[i].declaration == Some(d),
        d.git is Some,
    ensures
        selector_of(d.branch, d.tag, d.rev) is Some ==> resolve_spec(pkgs, Some(root), target) == Ok::<ResolvedView, ResolveError>(
            ResolvedView {
                ports: ports_of(pkgs, root, target),
                triplet: variant_in(pkgs, root, target),
                source: Some((d.git->0@, selector_of(d.branch, d.tag, d.rev)->0)),
            },
        ),
        selector_of(d.branch, d.tag, d.rev) is None ==> resolve_spec(pkgs, Some(root), target)
            == Err::<ResolvedView, ResolveError>(ResolveError::AmbiguousSourceRevision),
{
    lemma_source_of_root(pkgs, root, i);
    if selector_of(d.branch, d.tag, d.rev) is Some {
        assert forall|j: int| 0 <= j < pkgs.len() implies !package_ambiguous(
            #[trigger] pkgs[j],
            root,
        ) by {
            if j != i {
                assert(pkgs[j].id@ != root);
            }
        }
    } else {
        assert(package_ambiguous(pkgs[i], root));
    }
}

} // verus!
