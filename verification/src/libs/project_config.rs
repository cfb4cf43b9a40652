//! The project's configuration and, in it, the version state: the current
//! version, the version staged for release and the one staged before it.

use vstd::prelude::*;
use vstd::string::*;
use crate::commands::init::InitArgs;
use crate::commands::next::UpdateType;
use crate::libs::git::BranchType;
use crate::libs::msg::Failure;
use crate::libs::helpers::{path_of, to_path_str};
use crate::libs::text::{clone_opt, joined, opt_view, slice_views, views};
use crate::libs::version::{
    components, increment, incremented, is_version, join_dots, lemma_components_of_joined,
    lemma_joined_is_version, lemma_numbers_bounded, lemma_numbers_of_all, read_components,
    render_number, rendered, split_dots, write_version,
};

verus! {

/// The name of the file that holds the configuration.
pub const PROJECT_CONFIG: &'static str = "rellr.json";

/// How one package manager takes part in a release: where its manifest
/// lies, and whether the package is published afterwards.
#[derive(Debug, PartialEq, Eq)]
pub struct PackageManager {
    pub path: Option<String>,
    pub publish: Option<bool>,
}

/// A package manager's entry as the contracts see it.
pub struct PackageManagerView {
    pub path: Option<Seq<char>>,
    pub publish: Option<bool>,
}

impl View for PackageManager {
    type V = PackageManagerView;

    open spec fn view(&self) -> PackageManagerView {
        PackageManagerView { path: opt_view(self.path), publish: self.publish }
    }
}

impl Clone for PackageManager {
    fn clone(&self) -> (r: Self)
        ensures
            r@ == self@,
    {
        PackageManager { path: clone_opt(&self.path), publish: self.publish }
    }
}

/// The view of an optional package manager entry.
pub open spec fn manager_view(o: Option<PackageManager>) -> Option<PackageManagerView> {
    match o {
        Some(m) => Some(m@),
        None => None,
    }
}

/// A copy of an optional package manager entry.
fn clone_manager(o: &Option<PackageManager>) -> (r: Option<PackageManager>)
    ensures
        manager_view(r) == manager_view(*o),
{
    match o {
        Some(m) => Some(m.clone()),
        None => None,
    }
}

/// The package managers that the project is built with.
#[derive(Debug, PartialEq, Eq)]
pub struct PackageManagers {
    pub cargo: Option<PackageManager>,
    pub npm: Option<PackageManager>,
}

/// The package manager table as the contracts see it.
pub struct PackageManagersView {
    pub cargo: Option<PackageManagerView>,
    pub npm: Option<PackageManagerView>,
}

impl View for PackageManagers {
    type V = PackageManagersView;

    open spec fn view(&self) -> PackageManagersView {
        PackageManagersView { cargo: manager_view(self.cargo), npm: manager_view(self.npm) }
    }
}

impl Clone for PackageManagers {
    fn clone(&self) -> (r: Self)
        ensures
            r@ == self@,
    {
        PackageManagers { cargo: clone_manager(&self.cargo), npm: clone_manager(&self.npm) }
    }
}

/// The view of the optional package manager table.
pub open spec fn managers_view(o: Option<PackageManagers>) -> Option<PackageManagersView> {
    match o {
        Some(m) => Some(m@),
        None => None,
    }
}

/// A copy of the optional package manager table.
fn clone_managers(o: &Option<PackageManagers>) -> (r: Option<PackageManagers>)
    ensures
        managers_view(r) == managers_view(*o),
{
    match o {
        Some(m) => Some(m.clone()),
        None => None,
    }
}

/// The project's configuration. `current`, `next` and `prev` are the version
/// state; `branch_type` is set by the command that runs and, like `prev`, is
/// not kept between commands.
#[derive(Debug, PartialEq, Eq)]
pub struct ProjectConfig {
    pub name: String,
    pub current: String,
    pub next: Option<String>,
    pub prev: Option<String>,
    pub branch_type: BranchType,
    pub main_branch: String,
    pub changelog: Option<String>,
    pub package_managers: Option<PackageManagers>,
}

/// The configuration as the contracts see it.
pub struct ProjectConfigView {
    pub name: Seq<char>,
    pub current: Seq<char>,
    pub next: Option<Seq<char>>,
    pub prev: Option<Seq<char>>,
    pub branch_type: BranchType,
    pub main_branch: Seq<char>,
    pub changelog: Option<Seq<char>>,
    pub package_managers: Option<PackageManagersView>,
}

impl View for ProjectConfig {
    type V = ProjectConfigView;

    open spec fn view(&self) -> ProjectConfigView {
        ProjectConfigView {
            name: self.name@,
            current: self.current@,
            next: opt_view(self.next),
            prev: opt_view(self.prev),
            branch_type: self.branch_type,
            main_branch: self.main_branch@,
            changelog: opt_view(self.changelog),
            package_managers: managers_view(self.package_managers),
        }
    }
}

impl Clone for ProjectConfig {
    fn clone(&self) -> (r: Self)
        ensures
            r@ == self@,
    {
        ProjectConfig {
            name: self.name.clone(),
            current: self.current.clone(),
            next: clone_opt(&self.next),
            prev: clone_opt(&self.prev),
            branch_type: self.branch_type,
            main_branch: self.main_branch.clone(),
            changelog: clone_opt(&self.changelog),
            package_managers: clone_managers(&self.package_managers),
        }
    }
}

/// The version that a bump of the given kind leads to: the components of
/// `current`, raised at the kind's position, written back with dots.
pub open spec fn bumped(current: Seq<char>, kind: UpdateType) -> Seq<char> {
    join_dots(incremented(components(current), kind.spec_index()))
}

impl ProjectConfigView {
    /// The invariant of the version state: the current version is well
    /// formed, and a staged version is well formed and not the current one.
    pub open spec fn well_formed(self) -> bool {
        &&& is_version(self.current)
        &&& match self.next {
            Some(staged) => is_version(staged) && staged != self.current,
            None => true,
        }
    }

    /// The state after a bump, or the failure where the version that the
    /// bump leads to is the one already staged.
    pub open spec fn up_version(self, kind: UpdateType) -> Result<ProjectConfigView, Failure> {
        let computed = bumped(self.current, kind);
        if self.next == Some(computed) {
            Err(Failure::ReleaseAlreadyExists)
        } else {
            Ok(ProjectConfigView { prev: self.next, next: Some(computed), ..self })
        }
    }

    /// The state after the staged version has become the current one, or the
    /// failure where none is staged.
    pub open spec fn next_to_current(self) -> Result<ProjectConfigView, Failure> {
        match self.next {
            Some(staged) => Ok(
                ProjectConfigView { current: staged, next: None, prev: None, ..self },
            ),
            None => Err(Failure::ReleaseVersionNotSet),
        }
    }
}

impl ProjectConfig {
    /// The configuration of a project that is set up now: at the version
    /// given, or at 0.0.0, with nothing staged and `main` as its main branch.
    pub fn new(init_args: InitArgs) -> (c: Self)
        ensures
            c@ == (ProjectConfigView {
                name: init_args.name@,
                current: match init_args.version {
                    Some(v) => v@,
                    None => "0.0.0"@,
                },
                next: None,
                prev: None,
                branch_type: BranchType::Release,
                main_branch: "main"@,
                changelog: None,
                package_managers: None,
            }),
            (match init_args.version {
                Some(v) => is_version(v@),
                None => true,
            }) ==> c@.well_formed(),
    {
        proof {
            lemma_initial_version();
        }
        let current = match init_args.version {
            Some(v) => v,
            None => String::from_str("0.0.0"),
        };
        ProjectConfig {
            name: init_args.name,
            current,
            next: None,
            prev: None,
            branch_type: BranchType::Release,
            main_branch: String::from_str("main"),
            changelog: None,
            package_managers: None,
        }
    }

    /// Configuration for a project that has none yet. `exists` says whether
    /// a configuration file is already there; then nothing is made.
    pub fn new_if_not_exist(init_args: InitArgs, exists: bool) -> (r: Result<Self, Failure>)
        ensures
            exists ==> r == Err::<Self, Failure>(Failure::ConfigAlreadyCreated),
            !exists ==> r is Ok && r->Ok_0@ == (ProjectConfigView {
                name: init_args.name@,
                current: match init_args.version {
                    Some(v) => v@,
                    None => "0.0.0"@,
                },
                next: None,
                prev: None,
                branch_type: BranchType::Release,
                main_branch: "main"@,
                changelog: None,
                package_managers: None,
            }),
    {
        if exists {
            Err(Failure::ConfigAlreadyCreated)
        } else {
            Ok(Self::new(init_args))
        }
    }

    /// Stages the version that a bump of the given kind leads to. The
    /// version staged before becomes `prev`. Where the version is the one
    /// already staged, nothing changes and the failure says so. A
    /// well-formed state stays well formed, unless the bumped component is
    /// the greatest that 32 bits hold.
    pub fn up_version(&mut self, update_type: &UpdateType) -> (r: Result<Self, Failure>)
        ensures
            match old(self)@.up_version(*update_type) {
                Ok(after) => r is Ok && r->Ok_0@ == after && final(self)@ == after,
                Err(failure) => r == Err::<Self, Failure>(failure) && final(self)@ == old(self)@,
            },
            old(self)@.well_formed() && components(old(self)@.current)[update_type.spec_index() as int]
                < u32::MAX ==> final(self)@.well_formed(),
    {
        proof {
            if self@.well_formed() && components(self@.current)[update_type.spec_index() as int]
                < u32::MAX {
                lemma_up_version_keeps_well_formed(self@, *update_type);
            }
        }
        let parts = read_components(self.current.as_str());
        let raised = increment(parts, update_type.index());
        let next = write_version(&raised);
        let staged = match &self.next {
            Some(n) => *n == next,
            None => false,
        };
        if staged {
            return Err(Failure::ReleaseAlreadyExists);
        }
        self.prev = clone_opt(&self.next);
        self.next = Some(next);
        Ok(self.clone())
    }

    /// Makes the staged version the current one and clears what was staged.
    /// Where no version is staged, nothing changes and the failure says so.
    /// A well-formed state stays well formed.
    pub fn next_to_current(&mut self) -> (r: Result<Self, Failure>)
        ensures
            match old(self)@.next_to_current() {
                Ok(after) => r is Ok && r->Ok_0@ == after && final(self)@ == after,
                Err(failure) => r == Err::<Self, Failure>(failure) && final(self)@ == old(self)@,
            },
            old(self)@.well_formed() ==> final(self)@.well_formed(),
    {
        match &self.next {
            Some(staged) => {
                self.current = staged.clone();
            },
            None => {
                return Err(Failure::ReleaseVersionNotSet);
            },
        }
        self.next = None;
        self.prev = None;
        Ok(self.clone())
    }

    /// The directory in which the package is published with npm once it
    /// is released, where the configuration asks for that.
    pub fn publish(&self) -> (r: Option<String>)
        ensures
            opt_view(r) == self@.publish(),
    {
        match &self.package_managers {
            Some(managers) => {
                let npm = pm_config(&managers.npm);
                if npm.active && npm.publish {
                    Some(npm.path)
                } else {
                    None
                }
            },
            None => None,
        }
    }

    /// The paths of all the files that hold the project's version.
    pub fn paths(&mut self) -> (r: Vec<String>)
        ensures
            views(r@) == old(self)@.paths(),
            *final(self) == *old(self),
    {
        let mut paths: Vec<String> = Vec::new();
        match &self.package_managers {
            Some(managers) => {
                let mut cargo = pm_paths(ManagerKind::Cargo, &pm_config(&managers.cargo));
                let mut npm = pm_paths(ManagerKind::Npm, &pm_config(&managers.npm));
                let ghost first = views(cargo@);
                let ghost second = views(npm@);
                paths.append(&mut cargo);
                paths.append(&mut npm);
                assert(views(paths@) =~= first + second);
            },
            None => {
                assert(views(paths@) =~= Seq::<Seq<char>>::empty());
            },
        }
        paths
    }
}

/// A package manager that the releases know of.
#[derive(Clone, Copy, Debug, PartialEq, Eq, Structural)]
pub enum ManagerKind {
    Cargo,
    Npm,
}

impl ManagerKind {
    /// The files of a package that hold its version.
    pub open spec fn spec_files(self) -> Seq<Seq<char>> {
        match self {
            ManagerKind::Cargo => seq!["Cargo.toml"@, "Cargo.lock"@],
            ManagerKind::Npm => seq!["package.json"@],
        }
    }

    /// The files of a package that hold its version.
    pub fn files(&self) -> (r: Vec<&'static str>)
        ensures
            slice_views(r@) == self.spec_files(),
    {
        let mut files: Vec<&'static str> = Vec::new();
        match self {
            ManagerKind::Cargo => {
                files.push("Cargo.toml");
                files.push("Cargo.lock");
            },
            ManagerKind::Npm => {
                files.push("package.json");
            },
        }
        assert(slice_views(files@) =~= self.spec_files());
        files
    }
}

/// What a release does for one package manager: whether it takes part at
/// all, where its files lie, and whether the package is published.
#[derive(Debug, PartialEq, Eq)]
pub struct PackageManagerConfig {
    pub path: String,
    pub publish: bool,
    pub active: bool,
}

/// What a release does for a package manager, as the contracts see it.
pub struct PackageManagerConfigView {
    pub path: Seq<char>,
    pub publish: bool,
    pub active: bool,
}

impl View for PackageManagerConfig {
    type V = PackageManagerConfigView;

    open spec fn view(&self) -> PackageManagerConfigView {
        PackageManagerConfigView { path: self.path@, publish: self.publish, active: self.active }
    }
}

/// What a release does for a package manager, given its entry in the
/// configuration. Without an entry it takes no part; an entry without a
/// path stands for the project's own directory, and one that does not say
/// whether to publish does not publish.
pub open spec fn manager_config(entry: Option<PackageManagerView>) -> PackageManagerConfigView {
    match entry {
        Some(manager) => PackageManagerConfigView {
            path: match manager.path {
                Some(path) => path,
                None => Seq::<char>::empty(),
            },
            publish: match manager.publish {
                Some(publish) => publish,
                None => false,
            },
            active: true,
        },
        None => PackageManagerConfigView {
            path: Seq::<char>::empty(),
            publish: false,
            active: false,
        },
    }
}

/// The paths of the files that hold the version for a package manager:
/// each of its files under its path, or none where it takes no part.
pub open spec fn manager_paths(kind: ManagerKind, config: PackageManagerConfigView) -> Seq<
    Seq<char>,
> {
    if config.active {
        Seq::new(kind.spec_files().len(), |i: int| path_of(seq![config.path, kind.spec_files()[i]]))
    } else {
        Seq::<Seq<char>>::empty()
    }
}

impl ProjectConfigView {
    /// The paths of all the files that hold the project's version: those of
    /// cargo first, then those of npm.
    pub open spec fn paths(self) -> Seq<Seq<char>> {
        match self.package_managers {
            Some(managers) => manager_paths(ManagerKind::Cargo, manager_config(managers.cargo))
                + manager_paths(ManagerKind::Npm, manager_config(managers.npm)),
            None => Seq::<Seq<char>>::empty(),
        }
    }

    /// The directory in which the package is published with npm once it
    /// is released; `None` where the configuration does not ask for that.
    pub open spec fn publish(self) -> Option<Seq<char>> {
        match self.package_managers {
            Some(managers) => if manager_config(managers.npm).active && manager_config(
                managers.npm,
            ).publish {
                Some(manager_config(managers.npm).path)
            } else {
                None
            },
            None => None,
        }
    }
}

/// What a release does for a package manager, given its entry in the
/// configuration.
pub fn pm_config(package_manager: &Option<PackageManager>) -> (r: PackageManagerConfig)
    ensures
        r@ == manager_config(manager_view(*package_manager)),
{
    match package_manager {
        Some(manager) => PackageManagerConfig {
            path: match &manager.path {
                Some(path) => path.clone(),
                None => String::new(),
            },
            publish: match manager.publish {
                Some(publish) => publish,
                None => false,
            },
            active: true,
        },
        None => PackageManagerConfig { path: String::new(), publish: false, active: false },
    }
}

/// The paths of the files that hold the version for a package manager.
pub fn pm_paths(kind: ManagerKind, package_manager_config: &PackageManagerConfig) -> (r: Vec<
    String,
>)
    ensures
        views(r@) == manager_paths(kind, package_manager_config@),
{
    let mut paths: Vec<String> = Vec::new();
    if package_manager_config.active {
        let files = kind.files();
        let mut i: usize = 0;
        while i < files.len()
            invariant
                i <= files.len(),
                slice_views(files@) == kind.spec_files(),
                paths@.len() == i,
                forall|j: int|
                    0 <= j < i ==> paths@[j]@ == path_of(
                        seq![package_manager_config@.path, kind.spec_files()[j]],
                    ),
            decreases files.len() - i,
        {
            let mut parts: Vec<&str> = Vec::new();
            parts.push(package_manager_config.path.as_str());
            parts.push(files[i]);
            assert(slice_views(parts@) =~= seq![
                package_manager_config@.path,
                kind.spec_files()[i as int],
            ]) by {
                assert(slice_views(files@)[i as int] == files@[i as int]@);
            }
            paths.push(to_path_str(parts));
            i = i + 1;
        }
    }
    assert(views(paths@) =~= manager_paths(kind, package_manager_config@));
    paths
}

/// A well-formed version has three components.
pub proof fn lemma_version_has_three_components(version: Seq<char>)
    requires
        is_version(version),
    ensures
        components(version).len() == 3,
{
    lemma_numbers_of_all(split_dots(version));
}

/// The version that a project starts from when none is given is well formed.
pub proof fn lemma_initial_version()
    ensures
        is_version("0.0.0"@),
{
    reveal_strlit("0.0.0");
    let zeros: Seq<nat> = seq![0, 0, 0];
    let texts = rendered(zeros);
    let two = texts.drop_last();
    let one = two.drop_last();
    assert(render_number(0) =~= seq!['0']);
    assert(joined(one, '.') =~= seq!['0']);
    assert(joined(two, '.') =~= seq!['0', '.', '0']);
    assert(joined(texts, '.') =~= "0.0.0"@);
    lemma_joined_is_version(zeros);
}

/// A bump gives a version whose component at the bump's position is one
/// greater than before, whose components to the right of it are zero, and
/// whose components to the left of it are as before. This holds of every
/// version that has a component at that position, unless that component is
/// the greatest that 32 bits hold.
pub proof fn lemma_bump_raises_one_component(current: Seq<char>, kind: UpdateType)
    requires
        kind.spec_index() < components(current).len(),
        components(current)[kind.spec_index() as int] < u32::MAX,
    ensures
        components(bumped(current, kind)).len() == components(current).len(),
        components(bumped(current, kind))[kind.spec_index() as int] == components(
            current,
        )[kind.spec_index() as int] + 1,
        forall|j: int|
            kind.spec_index() < j < components(current).len() ==> components(
                bumped(current, kind),
            )[j] == 0,
        forall|j: int|
            0 <= j < kind.spec_index() ==> components(bumped(current, kind))[j] == components(
                current,
            )[j],
{
    let before = components(current);
    let raised = incremented(before, kind.spec_index());
    lemma_numbers_bounded(split_dots(current));
    lemma_components_of_joined(raised);
}

/// A bump of a well-formed state leaves it well formed: what is staged is a
/// well-formed version other than the current one. The bumped component
/// must not be the greatest that 32 bits hold.
pub proof fn lemma_up_version_keeps_well_formed(config: ProjectConfigView, kind: UpdateType)
    requires
        config.well_formed(),
        components(config.current)[kind.spec_index() as int] < u32::MAX,
    ensures
        bumped(config.current, kind) != config.current,
        is_version(bumped(config.current, kind)),
        config.up_version(kind) is Ok ==> config.up_version(kind)->Ok_0.well_formed(),
{
    lemma_version_has_three_components(config.current);
    lemma_bump_raises_one_component(config.current, kind);
    let raised = incremented(components(config.current), kind.spec_index());
    lemma_numbers_bounded(split_dots(config.current));
    lemma_joined_is_version(raised);
}

/// Promotion of a well-formed state leaves it well formed.
pub proof fn lemma_next_to_current_keeps_well_formed(config: ProjectConfigView)
    requires
        config.well_formed(),
        config.next is Some,
    ensures
        config.next_to_current() is Ok,
        config.next_to_current()->Ok_0.well_formed(),
{
}

/// A bump fails exactly where the version it leads to is the one already
/// staged, and a failed bump is the only one that changes nothing.
pub proof fn lemma_up_version_rejects_staged(config: ProjectConfigView, kind: UpdateType)
    ensures
        config.up_version(kind) is Err <==> config.next == Some(bumped(config.current, kind)),
        config.up_version(kind) is Err ==> config.up_version(kind)
            == Err::<ProjectConfigView, Failure>(Failure::ReleaseAlreadyExists),
{
}

/// After a promotion a second one fails, whatever was staged, because
/// nothing is staged any more.
pub proof fn lemma_second_promotion_fails(config: ProjectConfigView)
    requires
        config.next is Some,
    ensures
        config.next_to_current() is Ok,
        config.next_to_current()->Ok_0.next_to_current() == Err::<ProjectConfigView, Failure>(
            Failure::ReleaseVersionNotSet,
        ),
{
}

} // verus!
