//! Plugins: their manifests, the registry of known plugins, the check that
//! a plugin accepts the running version, and the reading of what a plugin
//! process reported.
use vstd::prelude::*;
use crate::text::{owned, str_eq, trim};

verus! {

/// The category of a plugin.
#[derive(Debug, Clone, Copy, PartialEq, Eq, Structural)]
pub enum PluginType {
    Extractor,
    ContextProvider,
    Exporter,
}

/// A plugin's manifest.
#[derive(Debug, Clone)]
pub struct PluginManifest {
    pub name: String,
    pub version: String,
    pub description: String,
    pub plugin_type: PluginType,
    pub entry_point: String,
    /// The oldest running version the plugin accepts.
    pub min_graxus_version: Option<String>,
}

// ── Versions ───────────────────────────────────────────────────────────

#[verifier::external_type_specification]
#[verifier::external_body]
pub struct ExVersion(semver::Version);

/// Whether `semver` reads the text as a version.
pub uninterp spec fn semver_valid(text: Seq<char>) -> bool;

/// Whether the first version precedes the second in `semver`'s order.
pub uninterp spec fn semver_precedes(a: Seq<char>, b: Seq<char>) -> bool;

/// Reads a version with `semver::Version::parse`: it succeeds exactly on
/// the texts that `semver` accepts.
#[verifier::external_body]
fn parse_semver(text: &str) -> (r: Option<semver::Version>)
    ensures
        r is Some <==> semver_valid(text@),
{
    match semver::Version::parse(text) {
        Ok(v) => Some(v),
        Err(_) => None,
    }
}

/// Builds a version from its numbers with `semver::Version::new`, which
/// cannot fail; nothing is stated of the result.
#[verifier::external_body]
fn semver_version(major: u64, minor: u64, patch: u64) -> (v: semver::Version) {
    semver::Version::new(major, minor, patch)
}

/// A version read from its text.
pub struct ParsedVersion {
    text: String,
    version: semver::Version,
}

impl ParsedVersion {
    /// The text the version was read from.
    pub closed spec fn source(&self) -> Seq<char> {
        self.text@
    }

    /// Reads a version.
    pub fn parse(text: &str) -> (r: Option<ParsedVersion>)
        ensures
            r is Some <==> semver_valid(text@),
            r matches Some(v) ==> v.source() == text@,
    {
        match parse_semver(text) {
            Some(version) => Some(ParsedVersion { text: owned(text), version }),
            None => None,
        }
    }

    /// The text the version was read from.
    pub fn text(&self) -> (t: &str)
        ensures
            t@ == self.source(),
    {
        self.text.as_str()
    }

    /// Whether this version precedes the other, by `Version`'s `<`.
    #[verifier::external_body]
    pub fn precedes(&self, other: &ParsedVersion) -> (b: bool)
        ensures
            b == semver_precedes(self.source(), other.source()),
    {
        self.version < other.version
    }
}

/// The version of this tool, which plugins name as their minimum.
pub open spec fn current_version_text() -> Seq<char> {
    "0.4.0"@
}

// ── The registry ───────────────────────────────────────────────────────

/// Why a plugin cannot run, or what its run reported.
#[derive(Debug, Clone)]
pub enum PluginError {
    /// No plugin of the registry has the name.
    NotFound { name: String },
    /// The plugin's minimum version cannot be read.
    InvalidMinVersion { plugin: String, version: String },
    /// The running version precedes the plugin's minimum.
    TooOld { plugin: String, required: String, current: String },
    /// The plugin process failed; its error output, trimmed.
    Exited { plugin: String, status: String, stderr: String },
    /// The plugin's output is not UTF-8.
    OutputNotText,
}

/// The known plugins, their directory, and the running version.
pub struct PluginRegistry {
    pub plugins: Vec<PluginManifest>,
    pub plugin_dir: String,
    pub graxus_version: ParsedVersion,
}

/// The first plugin with the name.
pub open spec fn first_named(plugins: Seq<PluginManifest>, name: Seq<char>) -> Option<int>
    decreases plugins.len(),
{
    if plugins.len() == 0 {
        None
    } else if plugins[0].name@ == name {
        Some(0)
    } else {
        match first_named(plugins.drop_first(), name) {
            Some(i) => Some(i + 1),
            None => None,
        }
    }
}

/// The plugins without those of the name, in order.
pub open spec fn without_named(plugins: Seq<PluginManifest>, name: Seq<char>) -> Seq<PluginManifest>
    decreases plugins.len(),
{
    if plugins.len() == 0 {
        Seq::empty()
    } else {
        let prev = without_named(plugins.drop_last(), name);
        if plugins.last().name@ == name { prev } else { prev.push(plugins.last()) }
    }
}

/// The outcome of the version check of a manifest.
pub open spec fn version_check(manifest: PluginManifest, current: Seq<char>, r: Result<(), PluginError>) -> bool {
    match manifest.min_graxus_version {
        None => r is Ok,
        Some(min) => if !semver_valid(min@) {
            r matches Err(PluginError::InvalidMinVersion { plugin, version }) && plugin@ == manifest.name@ && version@
                == min@
        } else if semver_precedes(current, min@) {
            r matches Err(PluginError::TooOld { plugin, required, current: c }) && plugin@ == manifest.name@
                && required@ == min@ && c@ == current
        } else {
            r is Ok
        },
    }
}

impl PluginRegistry {
    /// A registry of the directory, with no plugins yet, for the running
    /// version (read from its text, and built from its numbers should
    /// `semver` not read it).
    pub fn new(plugin_dir: String) -> (r: PluginRegistry)
        ensures
            r.plugins@.len() == 0,
            r.plugin_dir@ == plugin_dir@,
            r.graxus_version.source() == current_version_text(),
    {
        let graxus_version = match ParsedVersion::parse("0.4.0") {
            Some(v) => v,
            None => ParsedVersion { text: owned("0.4.0"), version: semver_version(0, 4, 0) },
        };
        PluginRegistry { plugins: Vec::new(), plugin_dir, graxus_version }
    }

    /// Adds a discovered or installed plugin.
    pub fn register(&mut self, manifest: PluginManifest)
        ensures
            final(self).plugins@ == old(self).plugins@.push(manifest),
            final(self).plugin_dir == old(self).plugin_dir,
    {
        self.plugins.push(manifest);
    }

    /// All known plugins.
    pub fn list(&self) -> (r: &[PluginManifest])
        ensures
            r@ == self.plugins@,
    {
        self.plugins.as_slice()
    }

    /// The first plugin with the name.
    pub fn get(&self, name: &str) -> (r: Option<&PluginManifest>)
        ensures
            match first_named(self.plugins@, name@) {
                Some(i) => r matches Some(m) && *m == self.plugins@[i],
                None => r is None,
            },
    {
        let ghost ps = self.plugins@;
        let mut i: usize = 0;
        assert(ps.skip(0) =~= ps);
        while i < self.plugins.len()
            invariant
                i <= self.plugins.len(),
                ps == self.plugins@,
                first_named(ps, name@) == match first_named(ps.skip(i as int), name@) {
                    Some(k) => Some(k + i),
                    None => None,
                },
            decreases self.plugins.len() - i,
        {
            assert(ps.skip(i as int)[0] == ps[i as int]);
            assert(ps.skip(i as int).drop_first() =~= ps.skip(i + 1));
            if str_eq(self.plugins[i].name.as_str(), name) {
                return Some(&self.plugins[i]);
            }
            i += 1;
        }
        assert(ps.skip(i as int) =~= Seq::<PluginManifest>::empty());
        None
    }

    /// Forgets the plugins of the name.
    pub fn remove_plugin(&mut self, name: &str)
        ensures
            final(self).plugins@ == without_named(old(self).plugins@, name@),
            final(self).plugin_dir == old(self).plugin_dir,
    {
        let ghost ps = self.plugins@;
        let mut kept: Vec<PluginManifest> = Vec::new();
        let mut i: usize = 0;
        assert(ps.take(0) =~= Seq::<PluginManifest>::empty());
        while i < self.plugins.len()
            invariant
                i <= self.plugins.len(),
                ps == self.plugins@,
                kept@ == without_named(ps.take(i as int), name@),
            decreases self.plugins.len() - i,
        {
            assert(ps.take(i + 1).drop_last() =~= ps.take(i as int));
            if !str_eq(self.plugins[i].name.as_str(), name) {
                kept.push(self.plugins[i].clone_manifest());
            }
            i += 1;
        }
        assert(ps.take(ps.len() as int) =~= ps);
        self.plugins = kept;
    }

    /// Whether the running version meets the manifest's minimum.
    pub fn check_version_compatibility(&self, manifest: &PluginManifest) -> (r: Result<(), PluginError>)
        ensures
            version_check(*manifest, self.graxus_version.source(), r),
    {
        match &manifest.min_graxus_version {
            None => Ok(()),
            Some(min) => {
                let v = match ParsedVersion::parse(min.as_str()) {
                    Some(v) => v,
                    None => {
                        return Err(
                            PluginError::InvalidMinVersion {
                                plugin: owned(manifest.name.as_str()),
                                version: owned(min.as_str()),
                            },
                        );
                    },
                };
                if self.graxus_version.precedes(&v) {
                    Err(
                        PluginError::TooOld {
                            plugin: owned(manifest.name.as_str()),
                            required: owned(v.text()),
                            current: owned(self.graxus_version.text()),
                        },
                    )
                } else {
                    Ok(())
                }
            },
        }
    }

    /// The plugin to run: the first of the name, refused where there is
    /// none or where it does not accept the running version.
    pub fn plugin_to_run(&self, name: &str) -> (r: Result<&PluginManifest, PluginError>)
        ensures
            match first_named(self.plugins@, name@) {
                None => r matches Err(PluginError::NotFound { name: n }) && n@ == name@,
                Some(i) => {
                    let m = self.plugins@[i];
                    version_check(m, self.graxus_version.source(), match r {
                        Ok(_) => Ok(()),
                        Err(e) => Err(e),
                    }) && (r matches Ok(x) ==> *x == m)
                },
            },
    {
        let manifest = match self.get(name) {
            Some(m) => m,
            None => return Err(PluginError::NotFound { name: owned(name) }),
        };
        match self.check_version_compatibility(manifest) {
            Ok(()) => Ok(manifest),
            Err(e) => Err(e),
        }
    }
}

impl PluginManifest {
    /// A copy of the manifest.
    pub fn clone_manifest(&self) -> (r: PluginManifest)
        ensures
            r == *self,
    {
        PluginManifest {
            name: self.name.clone(),
            version: self.version.clone(),
            description: self.description.clone(),
            plugin_type: self.plugin_type,
            entry_point: self.entry_point.clone(),
            min_graxus_version: match &self.min_graxus_version {
                Some(v) => Some(v.clone()),
                None => None,
            },
        }
    }
}

// ── A plugin's report ──────────────────────────────────────────────────

/// The text of bytes read as UTF-8, each invalid sequence replaced by
/// U+FFFD, as `String::from_utf8_lossy` gives it.
pub uninterp spec fn utf8_lossy(bytes: Seq<u8>) -> Seq<char>;

/// `String::from_utf8_lossy`: the bytes as text, invalid sequences
/// replaced.
#[verifier::external_body]
fn lossy_text(bytes: &Vec<u8>) -> (s: String)
    ensures
        s@ == utf8_lossy(bytes@),
{
    String::from_utf8_lossy(bytes.as_slice()).into_owned()
}

/// What a finished plugin process reported: where it failed, its error
/// output read as text and trimmed; else its output, which must be UTF-8,
/// trimmed, to be read as the plugin's result.
pub fn plugin_output(
    plugin: &str,
    succeeded: bool,
    status: &str,
    stdout: Vec<u8>,
    stderr: &Vec<u8>,
) -> (r: Result<String, PluginError>)
    ensures
        !succeeded ==> (r matches Err(PluginError::Exited { plugin: p, status: s, stderr: e }) && p@ == plugin@ && s@
            == status@ && e@ == trim(utf8_lossy(stderr@))),
        succeeded ==> match r {
            Ok(t) => vstd::utf8::valid_utf8(stdout@) && t@ == trim(vstd::utf8::decode_utf8(stdout@)),
            Err(e) => !vstd::utf8::valid_utf8(stdout@) && e is OutputNotText,
        },
{
    if !succeeded {
        let text = lossy_text(stderr);
        return Err(
            PluginError::Exited {
                plugin: owned(plugin),
                status: owned(status),
                stderr: crate::text::trimmed(text.as_str()),
            },
        );
    }
    match crate::store::string_from_utf8(stdout) {
        Some(t) => Ok(crate::text::trimmed(t.as_str())),
        None => Err(PluginError::OutputNotText),
    }
}

/// How long a plugin process may run before it is killed, in milliseconds.
pub const PLUGIN_TIMEOUT_MS: u64 = 30000;

/// How long to sleep between two looks at a running plugin, in milliseconds.
pub const PLUGIN_POLL_MS: u64 = 10;

/// What a look at the plugin process found.
#[derive(Debug, Clone, Copy, PartialEq, Eq, Structural)]
pub enum ProcessPoll {
    /// The process has exited.
    Exited,
    /// The process is still running.
    Running,
    /// The process could not be waited on.
    WaitFailed,
}

/// What to do after a look at the plugin process.
#[derive(Debug, Clone, Copy, PartialEq, Eq, Structural)]
pub enum WaitAction {
    /// Collect its exit status and output.
    Collect,
    /// Kill it: it ran for the whole timeout.
    Kill,
    /// Sleep this many milliseconds and look again.
    Sleep(u64),
    /// Give up waiting: the wait itself failed.
    Fail,
}

/// The next step of waiting for a plugin that has run for `elapsed_ms`
/// milliseconds: an exited process is collected, a failed wait ends the
/// run, and a running one is killed once the timeout has passed and
/// otherwise looked at again after a short sleep.
pub fn wait_step(poll: ProcessPoll, elapsed_ms: u64) -> (a: WaitAction)
    ensures
        poll == ProcessPoll::Exited ==> a == WaitAction::Collect,
        poll == ProcessPoll::WaitFailed ==> a == WaitAction::Fail,
        poll == ProcessPoll::Running && elapsed_ms >= PLUGIN_TIMEOUT_MS ==> a == WaitAction::Kill,
        poll == ProcessPoll::Running && elapsed_ms < PLUGIN_TIMEOUT_MS ==> a == WaitAction::Sleep(PLUGIN_POLL_MS),
{
    match poll {
        ProcessPoll::Exited => WaitAction::Collect,
        ProcessPoll::WaitFailed => WaitAction::Fail,
        ProcessPoll::Running => {
            if elapsed_ms >= PLUGIN_TIMEOUT_MS {
                WaitAction::Kill
            } else {
                WaitAction::Sleep(PLUGIN_POLL_MS)
            }
        },
    }
}

} // verus!
