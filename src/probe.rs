//! Finding a library in an installed vcpkg tree: choosing the linkage, laying
//! out the tree's paths, checking that the artifacts are there and producing
//! the linker directives for cargo.

use vstd::prelude::*;
use crate::env::{env_has, env_value, envify, envify_spec, EnvSnapshot};
use crate::text::{has_infix, has_infix_str, has_prefix, holds_string, is_prefix, strs};

verus! {

/// Errors of a probe.
#[derive(Debug)]
pub enum Error {
    /// Aborted because of a `*_NO_VCPKG` environment variable.
    ///
    /// Contains the name of the responsible environment variable.
    EnvNoPkgConfig(String),
    /// Only the MSVC ABI is supported.
    NotMSVC,
    /// The vcpkg tree could not be found.
    VcpkgNotFound(String),
    /// A library artifact is missing from the vcpkg tree; holds its path.
    LibNotFound(String),
}

/// What an [`Error`] holds, with its strings as character sequences.
pub enum ErrorView {
    EnvNoPkgConfig(Seq<char>),
    NotMSVC,
    VcpkgNotFound(Seq<char>),
    LibNotFound(Seq<char>),
}

impl View for Error {
    type V = ErrorView;

    open spec fn view(&self) -> ErrorView {
        match self {
            Error::EnvNoPkgConfig(s) => ErrorView::EnvNoPkgConfig(s@),
            Error::NotMSVC => ErrorView::NotMSVC,
            Error::VcpkgNotFound(s) => ErrorView::VcpkgNotFound(s@),
            Error::LibNotFound(s) => ErrorView::LibNotFound(s@),
        }
    }
}

/// The one-line summary of each kind of error.
pub open spec fn description_of(e: ErrorView) -> Seq<char> {
    match e {
        ErrorView::EnvNoPkgConfig(_) => "vcpkg requested to be aborted"@,
        ErrorView::NotMSVC => "vcpkg only can only find libraries for MSVC ABI 64 bit builds"@,
        ErrorView::VcpkgNotFound(_) => "could not find vcpkg tree"@,
        ErrorView::LibNotFound(_) => "could not find library in vcpkg tree"@,
    }
}

/// The full message of an error, with its detail.
pub open spec fn message_of(e: ErrorView) -> Seq<char> {
    match e {
        ErrorView::EnvNoPkgConfig(name) => "Aborted because "@ + name + " is set"@,
        ErrorView::NotMSVC => "this vcpkg build helper can only find libraries built for the MSVC ABI."@,
        ErrorView::VcpkgNotFound(detail) => "Could not find vcpkg tree: "@ + detail,
        ErrorView::LibNotFound(detail) => "Could not find library in vcpkg tree "@ + detail,
    }
}

impl Error {
    /// A short description of the kind of error.
    pub fn description(&self) -> (r: &'static str)
        ensures
            r@ == description_of(self@),
    {
        match self {
            Error::EnvNoPkgConfig(_) => "vcpkg requested to be aborted",
            Error::NotMSVC => "vcpkg only can only find libraries for MSVC ABI 64 bit builds",
            Error::VcpkgNotFound(_) => "could not find vcpkg tree",
            Error::LibNotFound(_) => "could not find library in vcpkg tree",
        }
    }

    /// The message shown to a user, with the detail the error carries.
    pub fn message(&self) -> (r: String)
        ensures
            r@ == message_of(self@),
    {
        match self {
            Error::EnvNoPkgConfig(name) => String::from_str("Aborted because ").concat(
                name.as_str(),
            ).concat(" is set"),
            Error::NotMSVC => String::from_str(
                "this vcpkg build helper can only find libraries built for the MSVC ABI.",
            ),
            Error::VcpkgNotFound(detail) => String::from_str("Could not find vcpkg tree: ").concat(
                detail.as_str(),
            ),
            Error::LibNotFound(detail) => String::from_str(
                "Could not find library in vcpkg tree ",
            ).concat(detail.as_str()),
        }
    }
}

/// The MSVC architectures that vcpkg has triplets for.
#[derive(PartialEq, Eq, Structural, Clone, Copy, Debug)]
pub enum MsvcTarget {
    X86,
    X64,
}

/// The name of the vcpkg triplet for an architecture.
pub open spec fn triplet_name(t: MsvcTarget) -> Seq<char> {
    match t {
        MsvcTarget::X86 => "x86-windows"@,
        MsvcTarget::X64 => "x64-windows"@,
    }
}

impl MsvcTarget {
    /// The name of the vcpkg triplet for this architecture.
    pub fn triplet(&self) -> (r: &'static str)
        ensures
            r@ == triplet_name(*self),
    {
        match self {
            MsvcTarget::X86 => "x86-windows",
            MsvcTarget::X64 => "x64-windows",
        }
    }
}

/// The architecture a rust target triple builds for, if it uses the MSVC ABI.
pub open spec fn msvc_target_of(target: Seq<char>) -> Option<MsvcTarget> {
    if !has_infix(target, "-pc-windows-msvc"@) {
        None
    } else if is_prefix("x86_64-"@, target) {
        Some(MsvcTarget::X64)
    } else {
        Some(MsvcTarget::X86)
    }
}

/// The MSVC architecture of a rust target triple; every MSVC target that is
/// not `x86_64` is taken as x86.
pub fn msvc_target(target: &str) -> (r: Result<MsvcTarget, Error>)
    ensures
        match msvc_target_of(target@) {
            Some(t) => r == Ok::<MsvcTarget, Error>(t),
            None => r is Err && r->Err_0@ == ErrorView::NotMSVC,
        },
{
    if !has_infix_str(target, "-pc-windows-msvc") {
        Err(Error::NotMSVC)
    } else if has_prefix(target, "x86_64-") {
        Ok(MsvcTarget::X64)
    } else {
        Ok(MsvcTarget::X86)
    }
}

/// `comp` appended to the path `base`, with a `/` between them unless `base`
/// is empty or already ends in a separator.
pub open spec fn join_path(base: Seq<char>, comp: Seq<char>) -> Seq<char> {
    if base.len() == 0 {
        comp
    } else if base.last() == '/' || base.last() == '\\' {
        base + comp
    } else {
        base + "/"@ + comp
    }
}

/// `comp` appended to the path `base`.
pub fn join_path_str(base: &str, comp: &str) -> (r: String)
    ensures
        r@ == join_path(base@, comp@),
{
    let n = base.unicode_len();
    if n == 0 {
        return String::from_str(comp);
    }
    let last = base.get_char(n - 1);
    let b = String::from_str(base);
    if last == '/' || last == '\\' {
        b.concat(comp)
    } else {
        b.concat("/").concat(comp)
    }
}

/// The link and runtime names of one library.
struct LibNames {
    lib_stem: String,
    dll_stem: String,
}

impl View for LibNames {
    type V = (Seq<char>, Seq<char>);

    closed spec fn view(&self) -> (Seq<char>, Seq<char>) {
        (self.lib_stem@, self.dll_stem@)
    }
}

/// The (link name, runtime name) pairs of a list of names.
spec fn names_view(v: Seq<LibNames>) -> Seq<(Seq<char>, Seq<char>)> {
    v.map_values(|n: LibNames| n@)
}

/// What a [`Config`] holds: the linkage override, whether cargo metadata is
/// wanted, and the (link name, runtime name) pairs to look for.
pub struct ConfigView {
    pub statik: Option<bool>,
    pub cargo_metadata: bool,
    pub required_libs: Seq<(Seq<char>, Seq<char>)>,
}

/// Configuration of a library probe.
pub struct Config {
    statik: Option<bool>,
    cargo_metadata: bool,
    required_libs: Vec<LibNames>,
}

impl View for Config {
    type V = ConfigView;

    closed spec fn view(&self) -> ConfigView {
        ConfigView {
            statik: self.statik,
            cargo_metadata: self.cargo_metadata,
            required_libs: names_view(self.required_libs@),
        }
    }
}

/// The configuration once a probe for `port` has filled in the default name
/// pair: with no names given, the port name is both the link and the runtime
/// name.
pub open spec fn with_default(c: ConfigView, port: Seq<char>) -> ConfigView {
    if c.required_libs.len() == 0 {
        ConfigView { required_libs: seq![(port, port)], ..c }
    } else {
        c
    }
}

/// Whether static linkage is inferred for `port` from the environment: the
/// per-library signals come before the global ones, static before dynamic,
/// and dynamic linkage is the default.
pub open spec fn infer_static_spec(port: Seq<char>, env: Seq<(Seq<char>, Seq<char>)>) -> bool {
    let name = envify_spec(port);
    if env_has(env, name + "_STATIC"@) {
        true
    } else if env_has(env, name + "_DYNAMIC"@) {
        false
    } else if env_has(env, "VCPKG_ALL_STATIC"@) {
        true
    } else {
        false
    }
}

/// Whether a probe of `port` looks for static libraries.
pub open spec fn is_static_spec(
    c: ConfigView,
    port: Seq<char>,
    env: Seq<(Seq<char>, Seq<char>)>,
) -> bool {
    match c.statik {
        Some(b) => b,
        None => infer_static_spec(port, env),
    }
}

/// The environment variable that turns off the probe of `port`.
pub open spec fn abort_var(port: Seq<char>) -> Seq<char> {
    envify_spec(port) + "_NO_VCPKG"@
}

/// The file whose presence marks the root of a vcpkg tree.
pub open spec fn root_marker(root: Seq<char>) -> Seq<char> {
    join_path(root, ".vcpkg-root"@)
}

/// The directory of the installed triplet, `{root}/installed/{triplet}[-static]`.
pub open spec fn triplet_dir(root: Seq<char>, arch: MsvcTarget, statik: bool) -> Seq<char> {
    join_path(
        join_path(root, "installed"@),
        if statik {
            triplet_name(arch) + "-static"@
        } else {
            triplet_name(arch)
        },
    )
}

/// The directive that adds `dir` to the native library search path.
pub open spec fn link_search_line(dir: Seq<char>) -> Seq<char> {
    "cargo:rustc-link-search=native="@ + dir
}

/// The directive that links the library `stem`.
pub open spec fn link_lib_line(statik: bool, stem: Seq<char>) -> Seq<char> {
    if statik {
        "cargo:rustc-link-lib=static="@ + stem
    } else {
        "cargo:rustc-link-lib="@ + stem
    }
}

/// The static or import library `stem` in `dir`.
pub open spec fn lib_file(dir: Seq<char>, stem: Seq<char>) -> Seq<char> {
    join_path(dir, stem + ".lib"@)
}

/// The runtime library `stem` in `dir`.
pub open spec fn dll_file(dir: Seq<char>, stem: Seq<char>) -> Seq<char> {
    join_path(dir, stem + ".dll"@)
}

/// The files that must exist for one name pair, in the order they are checked.
pub open spec fn pair_artifacts(
    statik: bool,
    base: Seq<char>,
    names: (Seq<char>, Seq<char>),
) -> Seq<Seq<char>> {
    if statik {
        seq![lib_file(join_path(base, "lib"@), names.0)]
    } else {
        seq![
            lib_file(join_path(base, "lib"@), names.0),
            dll_file(join_path(base, "bin"@), names.1),
        ]
    }
}

/// The files that must exist for all name pairs, in the order they are checked.
pub open spec fn required_artifacts(
    statik: bool,
    base: Seq<char>,
    libs: Seq<(Seq<char>, Seq<char>)>,
) -> Seq<Seq<char>>
    decreases libs.len(),
{
    if libs.len() == 0 {
        seq![]
    } else {
        pair_artifacts(statik, base, libs[0]) + required_artifacts(statik, base, libs.drop_first())
    }
}

/// The first of `paths` that is not among `files`.
pub open spec fn first_missing(paths: Seq<Seq<char>>, files: Seq<Seq<char>>) -> Option<Seq<char>>
    decreases paths.len(),
{
    if paths.len() == 0 {
        None
    } else if !files.contains(paths[0]) {
        Some(paths[0])
    } else {
        first_missing(paths.drop_first(), files)
    }
}

/// What a [`Library`] holds, with its strings as character sequences.
pub struct LibraryView {
    pub link_paths: Seq<Seq<char>>,
    pub include_paths: Seq<Seq<char>>,
    pub cargo_metadata: Seq<Seq<char>>,
    pub is_static: bool,
    pub found_dlls: Seq<Seq<char>>,
    pub found_libs: Seq<Seq<char>>,
}

/// The directives for cargo that add the search paths.
pub open spec fn search_lines(statik: bool, base: Seq<char>) -> Seq<Seq<char>> {
    if statik {
        seq![link_search_line(join_path(base, "lib"@))]
    } else {
        seq![
            link_search_line(join_path(base, "lib"@)),
            link_search_line(join_path(base, "bin"@)),
        ]
    }
}

/// The directives that link each of `libs`.
pub open spec fn link_lines(statik: bool, libs: Seq<(Seq<char>, Seq<char>)>) -> Seq<Seq<char>> {
    libs.map_values(|n: (Seq<char>, Seq<char>)| link_lib_line(statik, n.0))
}

/// The static or import library of each of `libs` under `base`.
pub open spec fn lib_files(base: Seq<char>, libs: Seq<(Seq<char>, Seq<char>)>) -> Seq<Seq<char>> {
    libs.map_values(|n: (Seq<char>, Seq<char>)| lib_file(join_path(base, "lib"@), n.0))
}

/// The runtime library of each of `libs` under `base`.
pub open spec fn dll_files(base: Seq<char>, libs: Seq<(Seq<char>, Seq<char>)>) -> Seq<Seq<char>> {
    libs.map_values(|n: (Seq<char>, Seq<char>)| dll_file(join_path(base, "bin"@), n.1))
}

/// The library found under the triplet directory `base`, once every required
/// artifact is known to be there.
pub open spec fn library_for(
    statik: bool,
    base: Seq<char>,
    libs: Seq<(Seq<char>, Seq<char>)>,
) -> LibraryView {
    LibraryView {
        link_paths: seq![join_path(base, "lib"@)],
        include_paths: seq![join_path(base, "include"@)],
        cargo_metadata: search_lines(statik, base) + link_lines(statik, libs),
        is_static: statik,
        found_dlls: if statik {
            seq![]
        } else {
            dll_files(base, libs)
        },
        found_libs: lib_files(base, libs),
    }
}

/// The outcome of a probe for `port` with configuration `c`, environment
/// `env`, located tree `root` and the set of existing files `files`.
pub open spec fn probe_outcome(
    c: ConfigView,
    port: Seq<char>,
    env: Seq<(Seq<char>, Seq<char>)>,
    root: Result<Seq<char>, ErrorView>,
    files: Seq<Seq<char>>,
) -> Result<LibraryView, ErrorView> {
    let c = with_default(c, port);
    let target = match env_value(env, "TARGET"@) {
        Some(t) => t,
        None => Seq::empty(),
    };
    if env_has(env, abort_var(port)) {
        Err(ErrorView::EnvNoPkgConfig(abort_var(port)))
    } else {
        match msvc_target_of(target) {
            None => Err(ErrorView::NotMSVC),
            Some(arch) => match root {
                Err(e) => Err(e),
                Ok(r) => if !files.contains(root_marker(r)) {
                    Err(
                        ErrorView::VcpkgNotFound(
                            "Could not find vcpkg root at "@ + root_marker(r),
                        ),
                    )
                } else {
                    let statik = is_static_spec(c, port, env);
                    let base = triplet_dir(r, arch, statik);
                    match first_missing(required_artifacts(statik, base, c.required_libs), files) {
                        Some(p) => Err(ErrorView::LibNotFound(p)),
                        None => Ok(library_for(statik, base, c.required_libs)),
                    }
                },
            },
        }
    }
}

/// The files a probe looks for on disk, in the order it looks for them: none
/// when the probe fails before reaching the tree, else the root marker and
/// then the files each name pair requires.
pub open spec fn checked_paths(
    c: ConfigView,
    port: Seq<char>,
    env: Seq<(Seq<char>, Seq<char>)>,
    root: Result<Seq<char>, ErrorView>,
) -> Seq<Seq<char>> {
    let c = with_default(c, port);
    let target = match env_value(env, "TARGET"@) {
        Some(t) => t,
        None => Seq::empty(),
    };
    if env_has(env, abort_var(port)) {
        seq![]
    } else {
        match msvc_target_of(target) {
            None => seq![],
            Some(arch) => match root {
                Err(_) => seq![],
                Ok(r) => {
                    let statik = is_static_spec(c, port, env);
                    seq![root_marker(r)] + required_artifacts(
                        statik,
                        triplet_dir(r, arch, statik),
                        c.required_libs,
                    )
                },
            },
        }
    }
}

/// A library found in the vcpkg tree.
#[derive(Debug)]
pub struct Library {
    pub link_paths: Vec<String>,
    pub include_paths: Vec<String>,
    pub cargo_metadata: Vec<String>,
    /// libraries found are static
    pub is_static: bool,
    /// runtime libraries (DLLs) found
    pub found_dlls: Vec<String>,
    /// static libs or import libs found
    pub found_libs: Vec<String>,
}

impl View for Library {
    type V = LibraryView;

    open spec fn view(&self) -> LibraryView {
        LibraryView {
            link_paths: strs(self.link_paths@),
            include_paths: strs(self.include_paths@),
            cargo_metadata: strs(self.cargo_metadata@),
            is_static: self.is_static,
            found_dlls: strs(self.found_dlls@),
            found_libs: strs(self.found_libs@),
        }
    }
}

/// The view of a probe's result.
pub open spec fn result_view(r: Result<Library, Error>) -> Result<LibraryView, ErrorView> {
    match r {
        Ok(l) => Ok(l@),
        Err(e) => Err(e@),
    }
}

/// The view of a located (or not located) tree root.
pub open spec fn root_view(r: Result<String, Error>) -> Result<Seq<char>, ErrorView> {
    match r {
        Ok(s) => Ok(s@),
        Err(e) => Err(e@),
    }
}

impl Library {
    /// An empty library description with the given linkage.
    pub fn new(is_static: bool) -> (r: Library)
        ensures
            r@ == (LibraryView {
                link_paths: seq![],
                include_paths: seq![],
                cargo_metadata: seq![],
                is_static,
                found_dlls: seq![],
                found_libs: seq![],
            }),
    {
        let r = Library {
            include_paths: Vec::new(),
            link_paths: Vec::new(),
            cargo_metadata: Vec::new(),
            is_static: is_static,
            found_dlls: Vec::new(),
            found_libs: Vec::new(),
        };
        assert(r@.link_paths =~= seq![]);
        assert(r@.include_paths =~= seq![]);
        assert(r@.cargo_metadata =~= seq![]);
        assert(r@.found_dlls =~= seq![]);
        assert(r@.found_libs =~= seq![]);
        r
    }
}

/// Relies on std::path::Path::exists: whether a file is at `path`. The answer
/// depends on the disk, so nothing is promised of it.
#[verifier::external_body]
fn file_exists(path: &String) -> bool {
    std::path::Path::new(path.as_str()).exists()
}

/// `first_missing` over two sequences of paths, one after the other.
proof fn lemma_first_missing_concat(a: Seq<Seq<char>>, b: Seq<Seq<char>>, files: Seq<Seq<char>>)
    ensures
        first_missing(a + b, files) == match first_missing(a, files) {
            Some(p) => Some(p),
            None => first_missing(b, files),
        },
    decreases a.len(),
{
    if a.len() == 0 {
        assert(a + b =~= b);
    } else {
        assert((a + b)[0] == a[0]);
        assert((a + b).drop_first() =~= a.drop_first() + b);
        lemma_first_missing_concat(a.drop_first(), b, files);
    }
}

/// The triplet directory `{root}/installed/{triplet}[-static]`.
fn triplet_dir_str(root: &str, arch: MsvcTarget, statik: bool) -> (r: String)
    ensures
        r@ == triplet_dir(root@, arch, statik),
{
    let installed = join_path_str(root, "installed");
    let name = String::from_str(arch.triplet());
    let name = if statik {
        name.concat("-static")
    } else {
        name
    };
    join_path_str(installed.as_str(), name.as_str())
}

/// The error of a tree root whose marker file is missing.
pub open spec fn root_check(root: Seq<char>, files: Seq<Seq<char>>) -> Result<(), ErrorView> {
    if files.contains(root_marker(root)) {
        Ok(())
    } else {
        Err(ErrorView::VcpkgNotFound("Could not find vcpkg root at "@ + root_marker(root)))
    }
}

/// Checks that `path` is the root of a vcpkg tree, whose existing files are
/// `existing`: the root holds the marker file `.vcpkg-root`.
pub fn validate_vcpkg_root(path: &String, existing: &Vec<String>) -> (r: Result<(), Error>)
    ensures
        match root_check(path@, strs(existing@)) {
            Ok(()) => r is Ok,
            Err(e) => r is Err && r->Err_0@ == e,
        },
{
    let marker = join_path_str(path.as_str(), ".vcpkg-root");
    if holds_string(existing, &marker) {
        Ok(())
    } else {
        Err(
            Error::VcpkgNotFound(
                String::from_str("Could not find vcpkg root at ").concat(marker.as_str()),
            ),
        )
    }
}

/// Whether static linkage is inferred for `name` from the environment.
pub fn infer_static(name: &str, env: &EnvSnapshot) -> (r: bool)
    ensures
        r == infer_static_spec(name@, env@),
{
    let name = envify(name);
    if env.is_set(name.clone().concat("_STATIC").as_str()) {
        true
    } else if env.is_set(name.concat("_DYNAMIC").as_str()) {
        false
    } else if env.is_set("VCPKG_ALL_STATIC") {
        true
    } else if env.is_set("VCPKG_ALL_DYNAMIC") {
        false
    } else {
        false
    }
}

/// Finds the library `name` in the vcpkg tree at `vcpkg_root`, with the
/// default configuration.
pub fn probe_library(name: &str, env: &EnvSnapshot, vcpkg_root: Result<String, Error>) -> (r:
    Result<Library, Error>)
    ensures
        exists|files: Seq<Seq<char>>|
            is_prefix(
                files,
                checked_paths(
                    ConfigView { statik: None, cargo_metadata: true, required_libs: seq![] },
                    name@,
                    env@,
                    root_view(vcpkg_root),
                ),
            ) && result_view(r) == probe_outcome(
                ConfigView { statik: None, cargo_metadata: true, required_libs: seq![] },
                name@,
                env@,
                root_view(vcpkg_root),
                files,
            ),
{
    let mut config = Config::new();
    config.probe(name, env, vcpkg_root)
}

impl Config {
    /// A configuration that infers the linkage from the environment, emits
    /// cargo metadata and looks for the port's own name.
    pub fn new() -> (r: Config)
        ensures
            r@ == (ConfigView { statik: None, cargo_metadata: true, required_libs: seq![] }),
    {
        let r = Config { statik: None, cargo_metadata: true, required_libs: Vec::new() };
        assert(r@.required_libs =~= seq![]);
        r
    }

    /// Indicate whether to look for a static lib.
    ///
    /// This overrides the inference from environment variables.
    pub fn statik(&mut self, statik: bool) -> (r: &mut Config)
        ensures
            (*r)@ == (ConfigView { statik: Some(statik), ..old(self)@ }),
            *final(self) == *final(r),
    {
        self.statik = Some(statik);
        self
    }

    /// Override the name of the library to look for if it differs from the
    /// package name; `lib_stem` is both the link and the runtime name.
    ///
    /// This may be called more than once if multiple libs are required. All
    /// libs must be found for the probe to succeed.
    pub fn lib_name(&mut self, lib_stem: &str) -> (r: &mut Config)
        ensures
            (*r)@ == (ConfigView {
                required_libs: old(self)@.required_libs.push((lib_stem@, lib_stem@)),
                ..old(self)@
            }),
            *final(self) == *final(r),
    {
        self.lib_names(lib_stem, lib_stem)
    }

    /// Override the names of the library to look for: `lib_stem` is linked
    /// and, for dynamic linkage, `dll_stem` is the runtime library.
    ///
    /// This may be called more than once if multiple libs are required. All
    /// libs must be found for the probe to succeed.
    pub fn lib_names(&mut self, lib_stem: &str, dll_stem: &str) -> (r: &mut Config)
        ensures
            (*r)@ == (ConfigView {
                required_libs: old(self)@.required_libs.push((lib_stem@, dll_stem@)),
                ..old(self)@
            }),
            *final(self) == *final(r),
    {
        let names = LibNames {
            lib_stem: String::from_str(lib_stem),
            dll_stem: String::from_str(dll_stem),
        };
        self.required_libs.push(names);
        assert(self@.required_libs =~= old(self)@.required_libs.push((lib_stem@, dll_stem@)));
        self
    }

    /// Define whether metadata should be emitted for cargo allowing it to
    /// automatically link the binary. Defaults to `true`.
    pub fn cargo_metadata(&mut self, cargo_metadata: bool) -> (r: &mut Config)
        ensures
            (*r)@ == (ConfigView { cargo_metadata, ..old(self)@ }),
            *final(self) == *final(r),
    {
        self.cargo_metadata = cargo_metadata;
        self
    }

    /// Whether the directives of a probe are to be printed for cargo.
    pub fn emits_cargo_metadata(&self) -> (r: bool)
        ensures
            r == self@.cargo_metadata,
    {
        self.cargo_metadata
    }

    /// Whether a probe of `name` looks for static libraries.
    fn is_static(&self, name: &str, env: &EnvSnapshot) -> (r: bool)
        ensures
            r == is_static_spec(self@, name@, env@),
    {
        match self.statik {
            Some(b) => b,
            None => infer_static(name, env),
        }
    }

    /// With no names given, the port name is both the link and runtime name.
    fn add_default_names(&mut self, port_name: &str)
        ensures
            final(self)@ == with_default(old(self)@, port_name@),
    {
        if self.required_libs.len() == 0 {
            self.required_libs.push(
                LibNames { lib_stem: String::from_str(port_name), dll_stem: String::from_str(port_name) },
            );
            assert(self@.required_libs =~= seq![(port_name@, port_name@)]);
        }
    }

    /// Find the library `port_name` in the vcpkg tree `vcpkg_root`, where
    /// `existing` lists the files of the tree that are there.
    ///
    /// This uses all configuration previously set to select the architecture
    /// and linkage, and the signals set in `env`.
    pub fn probe_in(
        &mut self,
        port_name: &str,
        env: &EnvSnapshot,
        vcpkg_root: Result<String, Error>,
        existing: &Vec<String>,
    ) -> (r: Result<Library, Error>)
        ensures
            final(self)@ == with_default(old(self)@, port_name@),
            result_view(r) == probe_outcome(
                old(self)@,
                port_name@,
                env@,
                root_view(vcpkg_root),
                strs(existing@),
            ),
    {
        let ghost expected = probe_outcome(
            self@,
            port_name@,
            env@,
            root_view(vcpkg_root),
            strs(existing@),
        );
        self.add_default_names(port_name);
        let abort = envify(port_name).concat("_NO_VCPKG");
        if env.is_set(abort.as_str()) {
            return Err(Error::EnvNoPkgConfig(abort));
        }
        let target = match env.var("TARGET") {
            Some(t) => t,
            None => String::new(),
        };
        let arch = match msvc_target(target.as_str()) {
            Ok(a) => a,
            Err(e) => return Err(e),
        };
        let root = match vcpkg_root {
            Ok(r) => r,
            Err(e) => return Err(e),
        };
        match validate_vcpkg_root(&root, existing) {
            Ok(()) => {},
            Err(e) => return Err(e),
        }
        let statik = self.is_static(port_name, env);
        let base = triplet_dir_str(root.as_str(), arch, statik);
        let lib_path = join_path_str(base.as_str(), "lib");
        let bin_path = join_path_str(base.as_str(), "bin");
        let include_path = join_path_str(base.as_str(), "include");
        let mut lib = Library::new(statik);
        assert(expected == match first_missing(
            required_artifacts(statik, base@, self@.required_libs),
            strs(existing@),
        ) {
            Some(p) => Err(ErrorView::LibNotFound(p)),
            None => Ok(library_for(statik, base@, self@.required_libs)),
        });
        lib.cargo_metadata.push(
            String::from_str("cargo:rustc-link-search=native=").concat(lib_path.as_str()),
        );
        if !statik {
            lib.cargo_metadata.push(
                String::from_str("cargo:rustc-link-search=native=").concat(bin_path.as_str()),
            );
        }
        lib.include_paths.push(include_path);
        lib.link_paths.push(lib_path.clone());
        let ghost libs = self@.required_libs;
        let ghost files = strs(existing@);
        let ghost n = libs.len() as int;
        assert(libs.subrange(0, n) =~= libs);
        assert(link_lines(statik, libs.subrange(0, 0)) =~= seq![]);
        assert(lib@.cargo_metadata =~= search_lines(statik, base@));
        assert(lib@.cargo_metadata =~= library_for(
            statik,
            base@,
            libs.subrange(0, 0),
        ).cargo_metadata);
        assert(lib@.found_libs =~= library_for(statik, base@, libs.subrange(0, 0)).found_libs);
        assert(lib@.found_dlls =~= library_for(statik, base@, libs.subrange(0, 0)).found_dlls);
        assert(lib@.link_paths =~= library_for(statik, base@, libs.subrange(0, 0)).link_paths);
        assert(lib@.include_paths =~= library_for(
            statik,
            base@,
            libs.subrange(0, 0),
        ).include_paths);
        let mut i: usize = 0;
        while i < self.required_libs.len()
            invariant
                libs == self@.required_libs,
                self@ == with_default(old(self)@, port_name@),
                expected == probe_outcome(
                    old(self)@,
                    port_name@,
                    env@,
                    root_view(vcpkg_root),
                    strs(existing@),
                ),
                expected == match first_missing(required_artifacts(statik, base@, libs), files) {
                    Some(p) => Err(ErrorView::LibNotFound(p)),
                    None => Ok(library_for(statik, base@, libs)),
                },
                n == libs.len(),
                files == strs(existing@),
                i <= n,
                lib_path@ == join_path(base@, "lib"@),
                bin_path@ == join_path(base@, "bin"@),
                lib@ == library_for(statik, base@, libs.subrange(0, i as int)),
                first_missing(required_artifacts(statik, base@, libs), files) == first_missing(
                    required_artifacts(statik, base@, libs.subrange(i as int, n)),
                    files,
                ),
            decreases n - i,
        {
            let names = &self.required_libs[i];
            let ghost rest = libs.subrange(i as int, n);
            let ghost next = libs.subrange(0, i + 1);
            assert(names@ == libs[i as int]);
            assert(rest[0] == libs[i as int]);
            assert(rest.drop_first() =~= libs.subrange(i + 1, n));
            let ghost tail = required_artifacts(statik, base@, libs.subrange(i + 1, n));
            assert(required_artifacts(statik, base@, rest) == pair_artifacts(
                statik,
                base@,
                libs[i as int],
            ) + tail);
            proof {
                lemma_first_missing_concat(pair_artifacts(statik, base@, libs[i as int]), tail, files);
            }
            let ghost prev = libs.subrange(0, i as int);
            assert(next.drop_last() =~= prev);
            assert(link_lines(statik, next) =~= link_lines(statik, prev).push(
                link_lib_line(statik, libs[i as int].0),
            ));
            assert(lib_files(base@, next) =~= lib_files(base@, prev).push(
                lib_file(join_path(base@, "lib"@), libs[i as int].0),
            ));
            assert(dll_files(base@, next) =~= dll_files(base@, prev).push(
                dll_file(join_path(base@, "bin"@), libs[i as int].1),
            ));
            if statik {
                lib.cargo_metadata.push(
                    String::from_str("cargo:rustc-link-lib=static=").concat(
                        names.lib_stem.as_str(),
                    ),
                );
            } else {
                lib.cargo_metadata.push(
                    String::from_str("cargo:rustc-link-lib=").concat(names.lib_stem.as_str()),
                );
            }
            let lib_location = join_path_str(
                lib_path.as_str(),
                names.lib_stem.clone().concat(".lib").as_str(),
            );
            let ghost pair = pair_artifacts(statik, base@, libs[i as int]);
            assert(names.lib_stem@ == libs[i as int].0 && names.dll_stem@ == libs[i as int].1);
            assert(pair[0] == lib_location@);
            if !holds_string(existing, &lib_location) {
                assert(first_missing(pair, files) == Some(lib_location@));
                return Err(Error::LibNotFound(lib_location));
            }
            lib.found_libs.push(lib_location);
            if !statik {
                let dll_location = join_path_str(
                    bin_path.as_str(),
                    names.dll_stem.clone().concat(".dll").as_str(),
                );
                assert(pair.drop_first()[0] == dll_location@);
                if !holds_string(existing, &dll_location) {
                    assert(first_missing(pair.drop_first(), files) == Some(dll_location@));
                    assert(first_missing(pair, files) == Some(dll_location@));
                    return Err(Error::LibNotFound(dll_location));
                }
                assert(first_missing(pair.drop_first().drop_first(), files) is None);
                assert(first_missing(pair, files) is None);
                lib.found_dlls.push(dll_location);
            }
            let ghost want = library_for(statik, base@, next);
            assert(search_lines(statik, base@) + link_lines(statik, prev).push(
                link_lib_line(statik, libs[i as int].0),
            ) =~= (search_lines(statik, base@) + link_lines(statik, prev)).push(
                link_lib_line(statik, libs[i as int].0),
            ));
            assert(lib@.cargo_metadata =~= want.cargo_metadata);
            assert(lib@.found_libs =~= want.found_libs);
            assert(lib@.found_dlls =~= want.found_dlls);
            i += 1;
        }
        Ok(lib)
    }

    /// The name pairs a probe of `port_name` looks for.
    fn names_for(&self, port_name: &str) -> (r: Vec<LibNames>)
        ensures
            names_view(r@) == with_default(self@, port_name@).required_libs,
    {
        let mut r: Vec<LibNames> = Vec::new();
        if self.required_libs.len() == 0 {
            r.push(
                LibNames { lib_stem: String::from_str(port_name), dll_stem: String::from_str(port_name) },
            );
            assert(names_view(r@) =~= seq![(port_name@, port_name@)]);
            return r;
        }
        let mut i: usize = 0;
        while i < self.required_libs.len()
            invariant
                i <= self.required_libs@.len(),
                names_view(r@) == names_view(self.required_libs@).subrange(0, i as int),
            decreases self.required_libs@.len() - i,
        {
            let names = &self.required_libs[i];
            let copy = LibNames { lib_stem: names.lib_stem.clone(), dll_stem: names.dll_stem.clone() };
            assert(copy@ == names@);
            let ghost before = r@;
            r.push(copy);
            assert(names_view(r@) =~= names_view(before).push(names@));
            assert(names_view(self.required_libs@).subrange(0, i + 1) =~= names_view(
                self.required_libs@,
            ).subrange(0, i as int).push(names@));
            i += 1;
            assert(names_view(r@) =~= names_view(self.required_libs@).subrange(0, i as int));
        }
        assert(names_view(self.required_libs@).subrange(0, i as int) =~= names_view(
            self.required_libs@,
        ));
        r
    }

    /// The files a probe of `port_name` looks for on disk, in order.
    fn paths_to_check(&self, port_name: &str, env: &EnvSnapshot, vcpkg_root: &Result<
        String,
        Error,
    >) -> (r: Vec<String>)
        ensures
            strs(r@) == checked_paths(self@, port_name@, env@, root_view(*vcpkg_root)),
    {
        let mut paths: Vec<String> = Vec::new();
        assert(strs(paths@) =~= seq![]);
        let abort = envify(port_name).concat("_NO_VCPKG");
        if env.is_set(abort.as_str()) {
            return paths;
        }
        let target = match env.var("TARGET") {
            Some(t) => t,
            None => String::new(),
        };
        let arch = match msvc_target(target.as_str()) {
            Ok(a) => a,
            Err(_) => return paths,
        };
        let root = match vcpkg_root {
            Ok(r) => r,
            Err(_) => return paths,
        };
        paths.push(join_path_str(root.as_str(), ".vcpkg-root"));
        let statik = self.is_static(port_name, env);
        let base = triplet_dir_str(root.as_str(), arch, statik);
        let lib_path = join_path_str(base.as_str(), "lib");
        let bin_path = join_path_str(base.as_str(), "bin");
        let names = self.names_for(port_name);
        let ghost libs = names_view(names@);
        let ghost marker = seq![root_marker(root@)];
        assert(libs.subrange(0, 0) =~= Seq::<(Seq<char>, Seq<char>)>::empty());
        assert(strs(paths@) =~= marker + required_artifacts(statik, base@, libs.subrange(0, 0)));
        let mut i: usize = 0;
        while i < names.len()
            invariant
                i <= names@.len(),
                libs == names_view(names@),
                lib_path@ == join_path(base@, "lib"@),
                bin_path@ == join_path(base@, "bin"@),
                strs(paths@) == marker + required_artifacts(statik, base@, libs.subrange(0, i as int)),
            decreases names@.len() - i,
        {
            let ghost before = strs(paths@);
            let ghost prev = libs.subrange(0, i as int);
            assert(libs.subrange(0, i + 1) =~= prev.push(libs[i as int]));
            proof {
                lemma_required_artifacts_push(statik, base@, prev, libs[i as int]);
            }
            let names_i = &names[i];
            assert(names_i@ == libs[i as int]);
            let lib_location = join_path_str(
                lib_path.as_str(),
                names_i.lib_stem.clone().concat(".lib").as_str(),
            );
            paths.push(lib_location);
            if !statik {
                let dll_location = join_path_str(
                    bin_path.as_str(),
                    names_i.dll_stem.clone().concat(".dll").as_str(),
                );
                paths.push(dll_location);
            }
            assert(strs(paths@) =~= before + pair_artifacts(statik, base@, libs[i as int]));
            i += 1;
        }
        assert(libs.subrange(0, i as int) =~= libs);
        paths
    }

    /// The files that a probe looks for, in order, up to the first one that
    /// is not on disk.
    fn existing_files(&self, port_name: &str, env: &EnvSnapshot, vcpkg_root: &Result<
        String,
        Error,
    >) -> (r: Vec<String>)
        ensures
            is_prefix(strs(r@), checked_paths(self@, port_name@, env@, root_view(*vcpkg_root))),
    {
        let paths = self.paths_to_check(port_name, env, vcpkg_root);
        let mut found: Vec<String> = Vec::new();
        let mut i: usize = 0;
        while i < paths.len()
            invariant
                i <= paths@.len(),
                strs(found@) == strs(paths@).subrange(0, i as int),
            decreases paths@.len() - i,
        {
            if !file_exists(&paths[i]) {
                break;
            }
            let copy = paths[i].clone();
            assert(copy@ == strs(paths@)[i as int]);
            let ghost before = found@;
            found.push(copy);
            assert(strs(found@) =~= strs(before).push(copy@));
            assert(strs(paths@).subrange(0, i + 1) =~= strs(paths@).subrange(0, i as int).push(
                copy@,
            ));
            i += 1;
            assert(strs(found@) =~= strs(paths@).subrange(0, i as int));
        }
        found
    }

    /// Find the library `port_name` in the vcpkg tree `vcpkg_root`, checking
    /// on disk that its files are there.
    ///
    /// This uses all configuration previously set to select the architecture
    /// and linkage, and the signals set in `env`. The files looked for on disk
    /// are those of `checked_paths`, in order, up to the first one missing;
    /// the result is the outcome of a probe against the ones found.
    pub fn probe(&mut self, port_name: &str, env: &EnvSnapshot, vcpkg_root: Result<String, Error>) -> (r:
        Result<Library, Error>)
        ensures
            final(self)@ == with_default(old(self)@, port_name@),
            exists|files: Seq<Seq<char>>|
                is_prefix(files, checked_paths(old(self)@, port_name@, env@, root_view(vcpkg_root)))
                    && result_view(r) == probe_outcome(
                    old(self)@,
                    port_name@,
                    env@,
                    root_view(vcpkg_root),
                    files,
                ),
    {
        let found = self.existing_files(port_name, env, &vcpkg_root);
        let ghost root = root_view(vcpkg_root);
        let r = self.probe_in(port_name, env, vcpkg_root, &found);
        assert(is_prefix(strs(found@), checked_paths(old(self)@, port_name@, env@, root))
            && result_view(r) == probe_outcome(old(self)@, port_name@, env@, root, strs(found@)));
        r
    }
}

/// The files required by a list of name pairs with one more pair at its end.
proof fn lemma_required_artifacts_push(
    statik: bool,
    base: Seq<char>,
    libs: Seq<(Seq<char>, Seq<char>)>,
    x: (Seq<char>, Seq<char>),
)
    ensures
        required_artifacts(statik, base, libs.push(x)) == required_artifacts(statik, base, libs)
            + pair_artifacts(statik, base, x),
    decreases libs.len(),
{
    let p = pair_artifacts(statik, base, x);
    if libs.len() == 0 {
        let one = libs.push(x);
        assert(one[0] == x);
        assert(one.drop_first() =~= Seq::<(Seq<char>, Seq<char>)>::empty());
        assert(required_artifacts(statik, base, one.drop_first()) =~= Seq::<Seq<char>>::empty());
        assert(required_artifacts(statik, base, one) == p + required_artifacts(
            statik,
            base,
            one.drop_first(),
        ));
        assert(required_artifacts(statik, base, libs) =~= Seq::<Seq<char>>::empty());
        assert(p + Seq::<Seq<char>>::empty() =~= p);
        assert(Seq::<Seq<char>>::empty() + p =~= p);
    } else {
        let more = libs.push(x);
        assert(more[0] == libs[0]);
        assert(more.drop_first() =~= libs.drop_first().push(x));
        lemma_required_artifacts_push(statik, base, libs.drop_first(), x);
        let head = pair_artifacts(statik, base, libs[0]);
        let rest = required_artifacts(statik, base, libs.drop_first());
        assert(required_artifacts(statik, base, more) == head + required_artifacts(
            statik,
            base,
            more.drop_first(),
        ));
        assert(head + (rest + p) =~= (head + rest) + p);
    }
}

/// A probe is idempotent: the only change it makes to its configuration is
/// filling in the default names, which a second probe finds already there,
/// so probing again with the same inputs against the same files gives the
/// same result.
pub proof fn probe_is_idempotent(
    c: ConfigView,
    port: Seq<char>,
    env: Seq<(Seq<char>, Seq<char>)>,
    root: Result<Seq<char>, ErrorView>,
    files: Seq<Seq<char>>,
)
    ensures
        with_default(with_default(c, port), port) == with_default(c, port),
        probe_outcome(with_default(c, port), port, env, root, files) == probe_outcome(
            c,
            port,
            env,
            root,
            files,
        ),
{
}

/// `first_missing` finds nothing exactly when every path is among the files.
proof fn lemma_first_missing_none(paths: Seq<Seq<char>>, files: Seq<Seq<char>>)
    ensures
        first_missing(paths, files) is None <==> forall|i: int|
            0 <= i < paths.len() ==> files.contains(#[trigger] paths[i]),
    decreases paths.len(),
{
    if paths.len() > 0 {
        lemma_first_missing_none(paths.drop_first(), files);
        if first_missing(paths, files) is None {
            assert forall|i: int| 0 <= i < paths.len() implies files.contains(
                #[trigger] paths[i],
            ) by {
                if i > 0 {
                    assert(paths[i] == paths.drop_first()[i - 1]);
                }
            }
        } else if files.contains(paths[0]) {
            let rest = paths.drop_first();
            let j = choose|j: int| 0 <= j < rest.len() && !files.contains(#[trigger] rest[j]);
            assert(paths[j + 1] == rest[j]);
        }
    }
}

/// The files a static probe needs are the link libraries of its name pairs
/// and nothing else: no runtime library is ever looked for. A dynamic probe
/// needs, for every name pair, both the link library and the runtime library.
/// Either way it succeeds only when all of them are there.
pub proof fn static_probe_needs_no_runtime_files(
    base: Seq<char>,
    libs: Seq<(Seq<char>, Seq<char>)>,
    files: Seq<Seq<char>>,
)
    ensures
        required_artifacts(true, base, libs) == lib_files(base, libs),
        forall|i: int|
            0 <= i < libs.len() ==> required_artifacts(false, base, libs).contains(
                lib_file(join_path(base, "lib"@), #[trigger] libs[i].0),
            ) && required_artifacts(false, base, libs).contains(
                dll_file(join_path(base, "bin"@), libs[i].1),
            ),
        forall|statik: bool|
            #![auto]
            first_missing(required_artifacts(statik, base, libs), files) is None <==> forall|
                p: Seq<char>,
            | required_artifacts(statik, base, libs).contains(p) ==> files.contains(p),
    decreases libs.len(),
{
    if libs.len() > 0 {
        let rest = libs.drop_first();
        static_probe_needs_no_runtime_files(base, rest, files);
        assert(lib_files(base, libs) =~= seq![lib_file(join_path(base, "lib"@), libs[0].0)]
            + lib_files(base, rest));
        let dyn_all = required_artifacts(false, base, libs);
        let dyn_rest = required_artifacts(false, base, rest);
        assert(dyn_all == pair_artifacts(false, base, libs[0]) + dyn_rest);
        assert forall|i: int| 0 <= i < libs.len() implies dyn_all.contains(
            lib_file(join_path(base, "lib"@), #[trigger] libs[i].0),
        ) && dyn_all.contains(dll_file(join_path(base, "bin"@), libs[i].1)) by {
            if i == 0 {
                assert(dyn_all[0] == lib_file(join_path(base, "lib"@), libs[0].0));
                assert(dyn_all[1] == dll_file(join_path(base, "bin"@), libs[0].1));
            } else {
                assert(rest[i - 1] == libs[i]);
                let a = choose|a: int|
                    0 <= a < dyn_rest.len() && dyn_rest[a] == lib_file(
                        join_path(base, "lib"@),
                        rest[i - 1].0,
                    );
                let b = choose|b: int|
                    0 <= b < dyn_rest.len() && dyn_rest[b] == dll_file(
                        join_path(base, "bin"@),
                        rest[i - 1].1,
                    );
                assert(dyn_all[a + 2] == dyn_rest[a]);
                assert(dyn_all[b + 2] == dyn_rest[b]);
            }
        }
    }
    assert forall|statik: bool|
        #![auto]
        first_missing(required_artifacts(statik, base, libs), files) is None <==> forall|
            p: Seq<char>,
        | required_artifacts(statik, base, libs).contains(p) ==> files.contains(p) by {
        lemma_first_missing_none(required_artifacts(statik, base, libs), files);
    }
}

} // verus!
