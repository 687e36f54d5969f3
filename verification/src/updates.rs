//! The releases that an update server offers, and what it publishes of them.

use crate::seqs::{first_index, lemma_first_index_is};
use crate::text::{append_chars, chars_of, decimal, decimal_chars, equals, matches_at, text_of};
use vstd::prelude::*;

verus! {

/// The port on which updates are served.
pub const UPDATE_PORT: u16 = 8080;

/// The service type under which an update server advertises itself.
pub fn update_service_type() -> (service_type: &'static str)
    ensures
        service_type@ == "_http._tcp.local."@,
{
    "_http._tcp.local."
}

/// The instance name under which an update server advertises itself.
pub fn update_instance_name() -> (name: &'static str)
    ensures
        name@ == "porn-transfer-updates"@,
{
    "porn-transfer-updates"
}

/// A release of one of the applications, for up to two architectures.
#[derive(Clone, Debug, PartialEq, Eq)]
pub struct AppRelease {
    pub app_type: String,
    pub version: String,
    pub notes: String,
    pub aarch64_path: Option<String>,
    pub aarch64_sig: Option<String>,
    pub x64_path: Option<String>,
    pub x64_sig: Option<String>,
    pub pub_date: String,
}

/// [`AppRelease`] as a value of specifications.
pub struct ReleaseModel {
    pub app_type: Seq<char>,
    pub version: Seq<char>,
    pub notes: Seq<char>,
    pub aarch64_path: Option<Seq<char>>,
    pub aarch64_sig: Option<Seq<char>>,
    pub x64_path: Option<Seq<char>>,
    pub x64_sig: Option<Seq<char>>,
    pub pub_date: Seq<char>,
}

impl DeepView for AppRelease {
    type V = ReleaseModel;

    open spec fn deep_view(&self) -> ReleaseModel {
        ReleaseModel {
            app_type: self.app_type@,
            version: self.version@,
            notes: self.notes@,
            aarch64_path: self.aarch64_path.deep_view(),
            aarch64_sig: self.aarch64_sig.deep_view(),
            x64_path: self.x64_path.deep_view(),
            x64_sig: self.x64_sig.deep_view(),
            pub_date: self.pub_date@,
        }
    }
}

/// What an update server is doing and offering: at most one release of each
/// application.
#[derive(Clone, Debug, PartialEq, Eq)]
pub struct ServerState {
    pub running: bool,
    pub port: u16,
    pub local_ip: String,
    pub releases: Vec<AppRelease>,
}

/// An architecture that releases are built for.
#[derive(Clone, Copy, Debug, PartialEq, Eq, Structural)]
pub enum Architecture {
    Aarch64,
    X64,
}

impl Architecture {
    /// What the architecture is called in the names of archives.
    pub open spec fn label(self) -> Seq<char> {
        match self {
            Architecture::Aarch64 => "aarch64"@,
            Architecture::X64 => "x64"@,
        }
    }

    /// What the architecture is called in what is published of a release.
    pub open spec fn platform(self) -> Seq<char> {
        match self {
            Architecture::Aarch64 => "darwin-aarch64"@,
            Architecture::X64 => "darwin-x86_64"@,
        }
    }
}

/// The name of the archive of an application for an architecture.
pub open spec fn archive_name_of(app_type: Seq<char>, arch: Architecture) -> Seq<char> {
    app_type + "_"@ + arch.label() + ".app.tar.gz"@
}

/// The address under which a file of a release is served.
pub open spec fn download_url(
    local_ip: Seq<char>,
    port: u16,
    app_type: Seq<char>,
    file: Seq<char>,
) -> Seq<char> {
    "http://"@ + local_ip + ":"@ + decimal(port as nat) + "/"@ + app_type + "/"@ + file
}

/// The name of the archive of an application for an architecture.
pub fn archive_name(app_type: &str, arch: Architecture) -> (name: String)
    ensures
        name@ == archive_name_of(app_type@, arch),
{
    let mut name = chars_of(app_type);
    append_chars(&mut name, &chars_of("_"));
    match arch {
        Architecture::Aarch64 => append_chars(&mut name, &chars_of("aarch64")),
        Architecture::X64 => append_chars(&mut name, &chars_of("x64")),
    }
    append_chars(&mut name, &chars_of(".app.tar.gz"));
    text_of(&name)
}

/// Whether a path names an application bundle, which is archived before it is
/// served: whether it ends in `.app`.
pub fn is_app_bundle(path: &str) -> (r: bool)
    ensures
        r == ".app"@.is_suffix_of(path@),
{
    let chars = chars_of(path);
    let suffix = chars_of(".app");
    if suffix.len() > chars.len() {
        return false;
    }
    let at = chars.len() - suffix.len();
    let r = matches_at(&chars, &suffix, at);
    proof {
        assert(chars@.subrange(at as int, at + suffix.len()) =~= chars@.subrange(
            chars.len() - suffix.len(),
            chars.len() as int,
        ));
    }
    r
}

/// The address under which a file of a release is served.
pub fn download_url_for(local_ip: &str, port: u16, app_type: &str, file: &str) -> (url: String)
    ensures
        url@ == download_url(local_ip@, port, app_type@, file@),
{
    let mut url = chars_of("http://");
    append_chars(&mut url, &chars_of(local_ip));
    append_chars(&mut url, &chars_of(":"));
    append_chars(&mut url, &decimal_chars(port as u128));
    append_chars(&mut url, &chars_of("/"));
    append_chars(&mut url, &chars_of(app_type));
    append_chars(&mut url, &chars_of("/"));
    append_chars(&mut url, &chars_of(file));
    text_of(&url)
}

/// What is published of a release for one platform.
#[derive(Clone, Debug, PartialEq, Eq)]
pub struct PlatformEntry {
    pub platform: String,
    pub signature: String,
    pub url: String,
}

/// [`PlatformEntry`] as a value of specifications.
pub struct PlatformModel {
    pub platform: Seq<char>,
    pub signature: Seq<char>,
    pub url: Seq<char>,
}

impl DeepView for PlatformEntry {
    type V = PlatformModel;

    open spec fn deep_view(&self) -> PlatformModel {
        PlatformModel { platform: self.platform@, signature: self.signature@, url: self.url@ }
    }
}

/// The entry of an architecture, for which a release has the file `path` signed
/// with `signature`, if it has both.
pub open spec fn entry_of(
    release: ReleaseModel,
    arch: Architecture,
    path: Option<Seq<char>>,
    signature: Option<Seq<char>>,
    local_ip: Seq<char>,
    port: u16,
) -> Seq<PlatformModel> {
    match (path, signature) {
        (Some(file), Some(sig)) => seq![
            PlatformModel {
                platform: arch.platform(),
                signature: sig,
                url: download_url(local_ip, port, release.app_type, file),
            },
        ],
        _ => Seq::empty(),
    }
}

/// The platforms that are published of a release: each architecture for which the
/// release has a file and its signature, `aarch64` first.
pub open spec fn published_platforms(release: ReleaseModel, local_ip: Seq<char>, port: u16) -> Seq<
    PlatformModel,
> {
    entry_of(
        release,
        Architecture::Aarch64,
        release.aarch64_path,
        release.aarch64_sig,
        local_ip,
        port,
    ) + entry_of(release, Architecture::X64, release.x64_path, release.x64_sig, local_ip, port)
}

/// The platforms that are published of a release; see [`published_platforms`].
pub fn platform_entries(release: &AppRelease, local_ip: &str, port: u16) -> (entries: Vec<
    PlatformEntry,
>)
    ensures
        entries.deep_view() == published_platforms(release.deep_view(), local_ip@, port),
{
    let mut entries: Vec<PlatformEntry> = Vec::new();
    match (&release.aarch64_path, &release.aarch64_sig) {
        (Some(file), Some(sig)) => {
            entries.push(
                PlatformEntry {
                    platform: "darwin-aarch64".to_owned(),
                    signature: sig.clone(),
                    url: download_url_for(local_ip, port, release.app_type.as_str(), file.as_str()),
                },
            );
        },
        _ => {},
    }
    match (&release.x64_path, &release.x64_sig) {
        (Some(file), Some(sig)) => {
            entries.push(
                PlatformEntry {
                    platform: "darwin-x86_64".to_owned(),
                    signature: sig.clone(),
                    url: download_url_for(local_ip, port, release.app_type.as_str(), file.as_str()),
                },
            );
        },
        _ => {},
    }
    proof {
        assert(entries.deep_view() =~= published_platforms(release.deep_view(), local_ip@, port));
    }
    entries
}

/// The releases after one was added: it takes the place of the release of the
/// same application, or is added at the end.
pub open spec fn with_release(releases: Seq<ReleaseModel>, release: ReleaseModel) -> Seq<
    ReleaseModel,
> {
    let at = first_index(releases, |r: ReleaseModel| r.app_type == release.app_type);
    if at < releases.len() {
        releases.update(at, release)
    } else {
        releases.push(release)
    }
}

impl ServerState {
    /// The state of a server that has not started and offers nothing.
    pub fn new(local_ip: String) -> (state: ServerState)
        ensures
            !state.running,
            state.port == UPDATE_PORT,
            state.local_ip == local_ip,
            state.releases@.len() == 0,
    {
        ServerState { running: false, port: UPDATE_PORT, local_ip, releases: Vec::new() }
    }

    /// Whether starting has anything to do, and the state of a started server:
    /// a server that runs stays as it is.
    pub fn start(&mut self, local_ip: String) -> (started: bool)
        ensures
            started == !old(self).running,
            final(self).running,
            final(self).releases == old(self).releases,
            started ==> final(self).port == UPDATE_PORT && final(self).local_ip == local_ip,
            !started ==> final(self).port == old(self).port && final(self).local_ip == old(
                self,
            ).local_ip,
    {
        if self.running {
            return false;
        }
        self.running = true;
        self.port = UPDATE_PORT;
        self.local_ip = local_ip;
        true
    }

    /// Marks the server as stopped.
    pub fn stop(&mut self)
        ensures
            !final(self).running,
            final(self).port == old(self).port,
            final(self).local_ip == old(self).local_ip,
            final(self).releases == old(self).releases,
    {
        self.running = false;
    }

    /// Adds a release; see [`with_release`].
    pub fn add_release(&mut self, release: AppRelease)
        ensures
            final(self).releases.deep_view() == with_release(
                old(self).releases.deep_view(),
                release.deep_view(),
            ),
            final(self).running == old(self).running,
            final(self).port == old(self).port,
            final(self).local_ip == old(self).local_ip,
    {
        let ghost before = self.releases.deep_view();
        let ghost p = |r: ReleaseModel| r.app_type == release.app_type@;
        let at = find_release(&self.releases, release.app_type.as_str());
        if at < self.releases.len() {
            self.releases.set(at, release);
            proof {
                assert(self.releases.deep_view() =~= before.update(at as int, release.deep_view()));
            }
        } else {
            self.releases.push(release);
            proof {
                assert(self.releases.deep_view() =~= before.push(release.deep_view()));
            }
        }
    }
}

/// The index of the first release of an application, or the number of releases.
fn find_release(releases: &Vec<AppRelease>, app_type: &str) -> (at: usize)
    ensures
        at == first_index(releases.deep_view(), |r: ReleaseModel| r.app_type == app_type@),
        at <= releases.len(),
{
    let ghost p = |r: ReleaseModel| r.app_type == app_type@;
    let mut i: usize = 0;
    while i < releases.len()
        invariant
            i <= releases.len(),
            p == (|r: ReleaseModel| r.app_type == app_type@),
            forall|j: int| 0 <= j < i ==> !p(#[trigger] releases.deep_view()[j]),
        decreases releases.len() - i,
    {
        if equals(releases[i].app_type.as_str(), app_type) {
            proof {
                assert(p(releases.deep_view()[i as int]));
                lemma_first_index_is(releases.deep_view(), p, i as int);
            }
            return i;
        }
        i += 1;
    }
    proof {
        lemma_first_index_is(releases.deep_view(), p, i as int);
    }
    i
}

/// A release as it is recorded once its files are in place.
pub fn new_release(
    app_type: &str,
    version: &str,
    notes: &str,
    aarch64: Option<(String, Option<String>)>,
    x64: Option<(String, Option<String>)>,
    pub_date: &str,
) -> (release: AppRelease)
    ensures
        release.app_type@ == app_type@,
        release.version@ == version@,
        release.notes@ == notes@,
        release.pub_date@ == pub_date@,
        release.aarch64_path == (match aarch64 {
            Some(built) => Some(built.0),
            None => None,
        }),
        release.aarch64_sig == (match aarch64 {
            Some(built) => built.1,
            None => None,
        }),
        release.x64_path == (match x64 {
            Some(built) => Some(built.0),
            None => None,
        }),
        release.x64_sig == (match x64 {
            Some(built) => built.1,
            None => None,
        }),
{
    let (aarch64_path, aarch64_sig) = match aarch64 {
        Some(built) => (Some(built.0), built.1),
        None => (None, None),
    };
    let (x64_path, x64_sig) = match x64 {
        Some(built) => (Some(built.0), built.1),
        None => (None, None),
    };
    AppRelease {
        app_type: app_type.to_owned(),
        version: version.to_owned(),
        notes: notes.to_owned(),
        aarch64_path,
        aarch64_sig,
        x64_path,
        x64_sig,
        pub_date: pub_date.to_owned(),
    }
}

} // verus!
