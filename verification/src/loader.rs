//! The decisions of fetching a parser's sources: where a repository goes, and
//! the steps that bring a git checkout to the wanted revision.
use vstd::prelude::*;
use vstd::string::StrSliceExecFns;
use vstd::string::StringExecFns;
use crate::downloads_policy::DownloadsPolicy;
use crate::run_grep::byte_list;
use crate::text::{
    debug_quoted, debug_string, decimal, decimal_string, str_eq, str_from_utf8, trim, trim_leading_white_space,
    trim_trailing_white_space,
};

verus! {

/// The directory name of a repository: what follows the last `/` of its URL,
/// else what follows the first `:`, else the whole URL.
pub open spec fn repo_name_spec(url: Seq<char>) -> Seq<char> {
    if exists|i: int| 0 <= i < url.len() && url[i] == '/' {
        let i = choose|i: int| 0 <= i < url.len() && url[i] == '/' && forall|j: int| i < j < url.len() ==> url[j] != '/';
        url.skip(i + 1)
    } else if exists|i: int| 0 <= i < url.len() && url[i] == ':' {
        let i = choose|i: int| 0 <= i < url.len() && url[i] == ':' && forall|j: int| 0 <= j < i ==> url[j] != ':';
        url.skip(i + 1)
    } else {
        url
    }
}

/// The directory name of a repository (see [`repo_name_spec`]).
pub fn repo_name(url: &str) -> (r: String)
    ensures
        r@ == repo_name_spec(url@),
{
    let n = url.unicode_len();
    // the last '/'
    let mut i = n;
    while i > 0 && url.get_char(i - 1) != '/'
        invariant
            i <= n,
            n == url@.len(),
            forall|j: int| i <= j < n ==> url@[j] != '/',
        decreases i,
    {
        i = i - 1;
    }
    if i > 0 {
        let k = i - 1;
        assert(url@[k as int] == '/');
        proof {
            let c = choose|c: int| 0 <= c < url@.len() && url@[c] == '/' && forall|j: int| c < j < url@.len() ==> url@[j] != '/';
            if c < k {
                assert(url@[k as int] != '/');
            }
            if c > k {
                assert(url@[c] != '/');
            }
        }
        assert(url@.subrange(i as int, n as int) =~= url@.skip(i as int));
        return String::from_str(url.substring_char(i, n));
    }
    // the first ':'
    let mut c: usize = 0;
    while c < n && url.get_char(c) != ':'
        invariant
            c <= n,
            n == url@.len(),
            forall|j: int| 0 <= j < c ==> url@[j] != ':',
        decreases n - c,
    {
        c = c + 1;
    }
    if c < n {
        proof {
            let d = choose|d: int| 0 <= d < url@.len() && url@[d] == ':' && forall|j: int| 0 <= j < d ==> url@[j] != ':';
            if d < c {
                assert(url@[d] != ':');
            }
            if d > c {
                assert(url@[c as int] != ':');
            }
        }
        assert(url@.subrange(c + 1, n as int) =~= url@.skip(c + 1));
        return String::from_str(url.substring_char(c + 1, n));
    }
    String::from_str(url)
}

/// `s` without its trailing `\n` bytes, then without its trailing `\r` bytes
/// (as git's output is trimmed before it is compared).
pub open spec fn trim_line_end(s: Seq<u8>) -> Seq<u8> {
    trim_trailing_byte(trim_trailing_byte(s, 10), 13)
}

/// `s` without its trailing bytes `b`.
pub open spec fn trim_trailing_byte(s: Seq<u8>, b: u8) -> Seq<u8>
    decreases s.len(),
{
    if s.len() > 0 && s.last() == b {
        trim_trailing_byte(s.drop_last(), b)
    } else {
        s
    }
}

fn trim_trailing(s: &[u8], b: u8) -> (r: Vec<u8>)
    ensures
        r@ == trim_trailing_byte(s@, b),
{
    let mut end = s.len();
    assert(s@.subrange(0, end as int) =~= s@);
    while end > 0 && s[end - 1] == b
        invariant
            end <= s@.len(),
            trim_trailing_byte(s@, b) == trim_trailing_byte(s@.subrange(0, end as int), b),
        decreases end,
    {
        assert(s@.subrange(0, end as int).drop_last() =~= s@.subrange(0, end - 1));
        end = end - 1;
    }
    vstd::slice::slice_to_vec(vstd::slice::slice_subrange(s, 0, end))
}

/// `s` without its trailing line end (see [`trim_line_end`]).
pub fn trim_git_output(s: &[u8]) -> (r: Vec<u8>)
    ensures
        r@ == trim_line_end(s@),
{
    let once = trim_trailing(s, 10);
    trim_trailing(once.as_slice(), 13)
}

fn bytes_equal(a: &[u8], b: &[u8]) -> (r: bool)
    ensures
        r == (a@ == b@),
{
    if a.len() != b.len() {
        return false;
    }
    let mut i: usize = 0;
    while i < a.len()
        invariant
            a@.len() == b@.len(),
            i <= a@.len(),
            forall|j: int| 0 <= j < i ==> a@[j] == b@[j],
        decreases a@.len() - i,
    {
        if a[i] != b[i] {
            return false;
        }
        i = i + 1;
    }
    assert(a@ =~= b@);
    true
}

/// The remote URL that git printed, without its line end; empty where the
/// output does not make a string of this platform.
pub open spec fn remote_text(out: Seq<u8>, platform_string: bool) -> Seq<u8> {
    if platform_string { trim_line_end(out) } else { Seq::empty() }
}

/// `format!("{:?}", path)`: a path as `Debug` shows it.
#[verifier::external_body]
fn path_debug(path: &std::path::PathBuf) -> String {
    format!("{:?}", path)
}

/// Why a checkout could not be brought to the wanted revision.
#[derive(Debug)]
pub enum GitFailure {
    /// The directory holds a clone of another repository.
    WrongRemote { existing_remote: Vec<u8> },
    /// The user did not allow the download.
    NotAllowedToDownload,
    /// A git command failed: what it was doing, and its error.
    CommandFailed { verb: String, message: String },
    /// `HEAD` is not a string of this platform.
    HeadIsInvalid { head: Vec<u8> },
}

/// What the git checkout asks of its caller next.
#[derive(Debug)]
pub enum GitStep {
    /// Run `git remote get-url origin` in the checkout; report with [`GitSync::origin_url`].
    GetOriginUrl,
    /// Ask the user whether to download from the repository; report with [`GitSync::download_answer`].
    AskToDownload,
    /// Make the parent directory and clone the repository there; report with [`GitSync::cloned`].
    Clone,
    /// Run `git rev-parse --quiet --verify` on `revision`; report with [`GitSync::revision_checked`].
    VerifyRevision { revision: String },
    /// Run `git fetch`; report with [`GitSync::fetched`].
    Fetch,
    /// Run `git rev-parse --quiet --verify HEAD`; report with [`GitSync::head`].
    GetHead,
    /// Run `git checkout` on the wanted revision; report with [`GitSync::checked_out`].
    Checkout,
    /// The checkout is at the wanted revision.
    Done,
    Failed(GitFailure),
}

/// Where the checkout stands.
#[derive(Copy, Clone, Debug, PartialEq, Eq, Structural)]
pub enum GitPhase {
    CheckingOrigin,
    AskingBeforeClone,
    Cloning,
    VerifyingRevision,
    AskingBeforeFetch,
    Fetching,
    ReadingHead,
    CheckingOut,
    Finished,
}

/// Brings a git checkout of a repository to a revision: clones it if it is
/// missing, fetches if the revision is missing, checks the revision out if
/// `HEAD` is elsewhere. Downloads only with the user's leave.
pub struct GitSync {
    repo_url: String,
    revision: String,
    dest_debug: String,
    policy: DownloadsPolicy,
    phase: GitPhase,
}

/// The step that may download: ahead if the policy allows it, a question if
/// it asks, else the failure.
pub open spec fn download_gate(policy: DownloadsPolicy, ahead: GitStep) -> GitStep {
    match policy {
        DownloadsPolicy::Yes => ahead,
        DownloadsPolicy::Ask => GitStep::AskToDownload,
        DownloadsPolicy::No => GitStep::Failed(GitFailure::NotAllowedToDownload),
    }
}

impl GitSync {
    /// Where the checkout stands.
    pub closed spec fn phase(&self) -> GitPhase {
        self.phase
    }

    /// The repository's URL.
    pub closed spec fn url(&self) -> Seq<char> {
        self.repo_url@
    }

    /// The wanted revision.
    pub closed spec fn wanted(&self) -> Seq<char> {
        self.revision@
    }

    /// The checkout's directory, as `Debug` shows it.
    pub closed spec fn dest(&self) -> Seq<char> {
        self.dest_debug@
    }

    /// The downloads policy.
    pub closed spec fn downloads(&self) -> DownloadsPolicy {
        self.policy
    }

    /// A checkout of `repo_url` in `dest`, to be brought to `revision`.
    pub fn new(repo_url: &str, revision: &str, dest: &std::path::PathBuf, policy: DownloadsPolicy) -> (r: (Self, GitStep))
        ensures
            r.0.phase() == GitPhase::CheckingOrigin,
            r.1 is GetOriginUrl,
            r.0.url() == repo_url@,
            r.0.wanted() == revision@,
            r.0.downloads() == policy,
    {
        (
            GitSync {
                repo_url: String::from_str(repo_url),
                revision: String::from_str(revision),
                dest_debug: path_debug(dest),
                policy,
                phase: GitPhase::CheckingOrigin,
            },
            GitStep::GetOriginUrl,
        )
    }

    fn finish(&mut self, step: GitStep) -> (r: GitStep)
        ensures
            r == step,
            final(self).phase() == GitPhase::Finished,
            final(self).url() == old(self).url(),
            final(self).wanted() == old(self).wanted(),
            final(self).downloads() == old(self).downloads(),
    {
        self.phase = GitPhase::Finished;
        step
    }

    /// The revision as `rev-parse` checks it: the commit it names.
    fn revision_check(&self) -> (r: GitStep)
        ensures
            r matches GitStep::VerifyRevision { revision } && revision@ == self.wanted() + "^{commit}"@,
    {
        proof { reveal_strlit("^{commit}"); }
        GitStep::VerifyRevision { revision: String::from_str(self.revision.as_str()).concat("^{commit}") }
    }

    /// After `git remote get-url origin`: its output, or its error, and whether
    /// the output makes a string of this platform (an output that does not
    /// counts as the empty URL). A checkout of the same repository goes on to
    /// the revision; one of another fails; with none, the repository is cloned
    /// if downloads are allowed.
    pub fn origin_url(&mut self, result: Result<Vec<u8>, String>, platform_string: bool) -> (r: GitStep)
        requires
            old(self).phase() == GitPhase::CheckingOrigin,
        ensures
            final(self).url() == old(self).url(),
            final(self).wanted() == old(self).wanted(),
            final(self).downloads() == old(self).downloads(),
            match result {
                Ok(out) => if remote_text(out@, platform_string) == vstd::utf8::encode_utf8(old(self).url()) {
                    r matches GitStep::VerifyRevision { revision } && revision@ == old(self).wanted() + "^{commit}"@
                        && final(self).phase() == GitPhase::VerifyingRevision
                } else {
                    r matches GitStep::Failed(GitFailure::WrongRemote { existing_remote })
                        && existing_remote@ == remote_text(out@, platform_string)
                },
                Err(_) => r == download_gate(old(self).downloads(), GitStep::Clone) && match old(self).downloads() {
                    DownloadsPolicy::Yes => final(self).phase() == GitPhase::Cloning,
                    DownloadsPolicy::Ask => final(self).phase() == GitPhase::AskingBeforeClone,
                    DownloadsPolicy::No => final(self).phase() == GitPhase::Finished,
                },
            },
    {
        match result {
            Ok(out) => {
                let existing = if platform_string { trim_git_output(out.as_slice()) } else { Vec::new() };
                assert(existing@ == remote_text(out@, platform_string));
                if bytes_equal(existing.as_slice(), self.repo_url.as_str().as_bytes()) {
                    self.phase = GitPhase::VerifyingRevision;
                    self.revision_check()
                } else {
                    self.finish(GitStep::Failed(GitFailure::WrongRemote { existing_remote: existing }))
                }
            },
            Err(_) => match self.policy {
                DownloadsPolicy::Yes => {
                    self.phase = GitPhase::Cloning;
                    GitStep::Clone
                },
                DownloadsPolicy::Ask => {
                    self.phase = GitPhase::AskingBeforeClone;
                    GitStep::AskToDownload
                },
                DownloadsPolicy::No => self.finish(GitStep::Failed(GitFailure::NotAllowedToDownload)),
            },
        }
    }

    /// After asking the user: a yes goes on to the download that was waiting.
    pub fn download_answer(&mut self, allowed: bool) -> (r: GitStep)
        requires
            old(self).phase() == GitPhase::AskingBeforeClone || old(self).phase() == GitPhase::AskingBeforeFetch,
        ensures
            final(self).url() == old(self).url(),
            final(self).wanted() == old(self).wanted(),
            final(self).downloads() == old(self).downloads(),
            !allowed ==> r matches GitStep::Failed(GitFailure::NotAllowedToDownload),
            allowed && old(self).phase() == GitPhase::AskingBeforeClone ==> r is Clone && final(self).phase() == GitPhase::Cloning,
            allowed && old(self).phase() == GitPhase::AskingBeforeFetch ==> r is Fetch && final(self).phase() == GitPhase::Fetching,
    {
        if !allowed {
            return self.finish(GitStep::Failed(GitFailure::NotAllowedToDownload));
        }
        match self.phase {
            GitPhase::AskingBeforeClone => {
                self.phase = GitPhase::Cloning;
                GitStep::Clone
            },
            _ => {
                self.phase = GitPhase::Fetching;
                GitStep::Fetch
            },
        }
    }

    /// After cloning: on success the revision is checked.
    pub fn cloned(&mut self, result: Result<(), String>) -> (r: GitStep)
        requires
            old(self).phase() == GitPhase::Cloning,
        ensures
            final(self).url() == old(self).url(),
            final(self).wanted() == old(self).wanted(),
            final(self).downloads() == old(self).downloads(),
            result is Ok ==> r is VerifyRevision && final(self).phase() == GitPhase::VerifyingRevision,
            result matches Err(m) ==> r matches GitStep::Failed(GitFailure::CommandFailed { verb, message })
                && verb@ == "clone "@ + debug_quoted(old(self).url()) + " to "@ + old(self).dest()
                && message@ == m@,
    {
        match result {
            Ok(()) => {
                self.phase = GitPhase::VerifyingRevision;
                self.revision_check()
            },
            Err(message) => {
                proof {
                    reveal_strlit("clone ");
                    reveal_strlit(" to ");
                }
                let verb = String::from_str("clone ").concat(debug_string(self.repo_url.as_str()).as_str())
                    .concat(" to ").concat(self.dest_debug.as_str());
                self.finish(GitStep::Failed(GitFailure::CommandFailed { verb, message }))
            },
        }
    }

    /// After checking the revision: a known revision goes on to `HEAD`; an
    /// unknown one is fetched if downloads are allowed.
    pub fn revision_checked(&mut self, known: bool) -> (r: GitStep)
        requires
            old(self).phase() == GitPhase::VerifyingRevision,
        ensures
            final(self).url() == old(self).url(),
            final(self).wanted() == old(self).wanted(),
            final(self).downloads() == old(self).downloads(),
            known ==> r is GetHead && final(self).phase() == GitPhase::ReadingHead,
            !known ==> r == download_gate(old(self).downloads(), GitStep::Fetch) && match old(self).downloads() {
                DownloadsPolicy::Yes => final(self).phase() == GitPhase::Fetching,
                DownloadsPolicy::Ask => final(self).phase() == GitPhase::AskingBeforeFetch,
                DownloadsPolicy::No => final(self).phase() == GitPhase::Finished,
            },
    {
        if known {
            self.phase = GitPhase::ReadingHead;
            return GitStep::GetHead;
        }
        match self.policy {
            DownloadsPolicy::Yes => {
                self.phase = GitPhase::Fetching;
                GitStep::Fetch
            },
            DownloadsPolicy::Ask => {
                self.phase = GitPhase::AskingBeforeFetch;
                GitStep::AskToDownload
            },
            DownloadsPolicy::No => self.finish(GitStep::Failed(GitFailure::NotAllowedToDownload)),
        }
    }

    /// After fetching: on success `HEAD` is read.
    pub fn fetched(&mut self, result: Result<(), String>) -> (r: GitStep)
        requires
            old(self).phase() == GitPhase::Fetching,
        ensures
            final(self).url() == old(self).url(),
            final(self).wanted() == old(self).wanted(),
            final(self).downloads() == old(self).downloads(),
            result is Ok ==> r is GetHead && final(self).phase() == GitPhase::ReadingHead,
            result matches Err(m) ==> r matches GitStep::Failed(GitFailure::CommandFailed { verb, message })
                && verb@ == "fetch "@ + debug_quoted(old(self).url()) + " to "@ + old(self).dest()
                && message@ == m@,
    {
        match result {
            Ok(()) => {
                self.phase = GitPhase::ReadingHead;
                GitStep::GetHead
            },
            Err(message) => {
                proof {
                    reveal_strlit("fetch ");
                    reveal_strlit(" to ");
                }
                let verb = String::from_str("fetch ").concat(debug_string(self.repo_url.as_str()).as_str())
                    .concat(" to ").concat(self.dest_debug.as_str());
                self.finish(GitStep::Failed(GitFailure::CommandFailed { verb, message }))
            },
        }
    }

    /// After reading `HEAD`: the checkout is done when it is the wanted
    /// revision, else that revision is checked out. `platform_string` tells
    /// whether the output makes a string of this platform.
    pub fn head(&mut self, result: Result<Vec<u8>, String>, platform_string: bool) -> (r: GitStep)
        requires
            old(self).phase() == GitPhase::ReadingHead,
        ensures
            final(self).url() == old(self).url(),
            final(self).wanted() == old(self).wanted(),
            final(self).downloads() == old(self).downloads(),
            result matches Err(m) ==> r matches GitStep::Failed(GitFailure::CommandFailed { verb, message })
                && verb@ == "determine HEAD in "@ + old(self).dest() && message@ == m@,
            result matches Ok(out) ==> if !platform_string {
                r matches GitStep::Failed(GitFailure::HeadIsInvalid { head }) && head@ == out@
            } else if trim_line_end(out@) == vstd::utf8::encode_utf8(old(self).wanted()) {
                r is Done
            } else {
                r is Checkout && final(self).phase() == GitPhase::CheckingOut
            },
    {
        match result {
            Err(message) => {
                proof { reveal_strlit("determine HEAD in "); }
                let verb = String::from_str("determine HEAD in ").concat(self.dest_debug.as_str());
                self.finish(GitStep::Failed(GitFailure::CommandFailed { verb, message }))
            },
            Ok(out) => {
                if !platform_string {
                    return self.finish(GitStep::Failed(GitFailure::HeadIsInvalid { head: out }));
                }
                let current = trim_git_output(out.as_slice());
                if bytes_equal(current.as_slice(), self.revision.as_str().as_bytes()) {
                    self.finish(GitStep::Done)
                } else {
                    self.phase = GitPhase::CheckingOut;
                    GitStep::Checkout
                }
            },
        }
    }

    /// After checking the revision out.
    pub fn checked_out(&mut self, result: Result<(), String>) -> (r: GitStep)
        requires
            old(self).phase() == GitPhase::CheckingOut,
        ensures
            result is Ok ==> r is Done,
            result matches Err(m) ==> r matches GitStep::Failed(GitFailure::CommandFailed { verb, message })
                && verb@ == "checkout "@ + debug_quoted(old(self).url()) + " to "@ + debug_quoted(old(self).wanted())
                && message@ == m@,
    {
        match result {
            Ok(()) => self.finish(GitStep::Done),
            Err(message) => {
                proof {
                    reveal_strlit("checkout ");
                    reveal_strlit(" to ");
                }
                let verb = String::from_str("checkout ").concat(debug_string(self.repo_url.as_str()).as_str())
                    .concat(" to ").concat(debug_string(self.revision.as_str()).as_str());
                self.finish(GitStep::Failed(GitFailure::CommandFailed { verb, message }))
            },
        }
    }
}

/// What to do with a cached tarball: download it again (unless offline, or it
/// has the expected hash), and check the hash of the file in the end (unless
/// the cached file was already found to have it).
pub open spec fn tarball_plan_spec(policy: DownloadsPolicy, cached_hash_matches: Option<bool>) -> (bool, bool) {
    let offline = policy == DownloadsPolicy::No;
    let redownload = !offline && match cached_hash_matches {
        Some(m) => !m,
        None => true,
    };
    (redownload, redownload || offline)
}

/// Whether to download a tarball again and whether to check its hash
/// afterwards (see [`tarball_plan_spec`]); `cached_hash_matches` is `None`
/// when the cached file could not be hashed.
pub fn tarball_plan(policy: DownloadsPolicy, cached_hash_matches: Option<bool>) -> (r: (bool, bool))
    ensures
        r == tarball_plan_spec(policy, cached_hash_matches),
{
    let offline = match policy {
        DownloadsPolicy::No => true,
        _ => false,
    };
    let redownload = !offline && match cached_hash_matches {
        Some(m) => !m,
        None => true,
    };
    (redownload, redownload || offline)
}

/// The value of a hexadecimal digit of either case.
pub open spec fn hex_digit_value(c: char) -> Option<int> {
    let v = c as u32;
    if 0x30 <= v <= 0x39 {
        Some(v - 0x30)
    } else if 0x41 <= v <= 0x46 {
        Some(v - 0x41 + 10)
    } else if 0x61 <= v <= 0x66 {
        Some(v - 0x61 + 10)
    } else {
        None
    }
}

/// What `base16ct::mixed::decode` leaves in a zeroed 32-byte buffer when it
/// decodes `hex` into it: each pair of digits as one byte, the rest zeros; or
/// `None` where it refuses `hex`, which it does unless `hex` is an even number
/// of hexadecimal digits (of either case), at most 64. (A character that is
/// not ASCII is no digit, and neither is any byte of its UTF-8 encoding.)
pub open spec fn hex_decoded_32(hex: Seq<char>) -> Option<Seq<u8>> {
    if hex.len() % 2 == 0 && hex.len() <= 64 && forall|i: int| 0 <= i < hex.len() ==> (#[trigger] hex_digit_value(hex[i])) is Some {
        Some(Seq::new(32, |i: int| if i < hex.len() / 2 {
            (16 * hex_digit_value(hex[2 * i])->0 + hex_digit_value(hex[2 * i + 1])->0) as u8
        } else {
            0u8
        }))
    } else {
        None
    }
}

/// The SHA-256 digest of `bytes` (`sha2::Sha256::digest`).
pub uninterp spec fn sha256_of(bytes: Seq<u8>) -> Seq<u8>;

/// A digit in lower-case hexadecimal.
pub open spec fn lower_hex_digit(v: int) -> char {
    if v < 10 { (0x30 + v) as char } else { (0x61 + v - 10) as char }
}

/// `bytes` in lower-case hexadecimal, two digits a byte, high digit first
/// (`base16ct::lower::encode_string`).
pub open spec fn lower_hex_of(bytes: Seq<u8>) -> Seq<char> {
    Seq::new(2 * bytes.len(), |i: int| if i % 2 == 0 { lower_hex_digit(bytes[i / 2] as int / 16) } else { lower_hex_digit(bytes[i / 2] as int % 16) })
}

/// `base16ct::mixed::decode` of `hex` into a zeroed 32-byte buffer: the buffer
/// (see [`hex_decoded_32`]), or the refusal's `Display` text (of which nothing
/// is stated).
#[verifier::external_body]
fn decode_hex_32(hex: &str) -> (r: Result<Vec<u8>, String>)
    ensures
        match r {
            Ok(v) => hex_decoded_32(hex@) == Some(v@),
            Err(_) => hex_decoded_32(hex@) is None,
        },
{
    let mut buf = [0u8; 32];
    match base16ct::mixed::decode(hex, &mut buf) {
        Ok(_) => Ok(buf.to_vec()),
        Err(e) => Err(e.to_string()),
    }
}

/// `sha2::Sha256::digest`; the digest, 32 bytes long, is named by [`sha256_of`].
#[verifier::external_body]
fn sha256(bytes: &[u8]) -> (r: Vec<u8>)
    ensures
        r@ == sha256_of(bytes@),
        r@.len() == 32,
{
    <sha2::Sha256 as sha2::Digest>::digest(bytes).to_vec()
}

/// `base16ct::lower::encode_string`: `bytes` in lower-case hexadecimal (see
/// [`lower_hex_of`]). It panics where the text's length would overflow.
#[verifier::external_body]
fn lower_hex(bytes: &[u8]) -> (r: String)
    requires
        bytes@.len() <= usize::MAX / 2,
    ensures
        r@ == lower_hex_of(bytes@),
{
    base16ct::lower::encode_string(bytes)
}

/// Why a tarball's hash does not check out.
#[derive(Debug)]
pub enum TarballHashError {
    /// The expected hash is not hexadecimal text of the right length; why.
    ExpectedHashIsInvalid(String),
    /// The tarball's SHA-256 digest is another; it, in lower-case hexadecimal.
    WrongHash { recomputed_hash: String },
}

/// The expected digest of a tarball, decoded from its hexadecimal text.
pub fn expected_tarball_hash(expected_hex: &str) -> (r: Result<Vec<u8>, TarballHashError>)
    ensures
        match hex_decoded_32(expected_hex@) {
            Some(d) => r matches Ok(v) && v@ == d,
            None => r matches Err(TarballHashError::ExpectedHashIsInvalid(_)),
        },
{
    match decode_hex_32(expected_hex) {
        Ok(v) => Ok(v),
        Err(message) => Err(TarballHashError::ExpectedHashIsInvalid(message)),
    }
}

/// Whether a tarball with these contents has the expected SHA-256 digest,
/// given as hexadecimal text.
pub fn tarball_hash_check(expected_hex: &str, contents: &[u8]) -> (r: Result<(), TarballHashError>)
    ensures
        match hex_decoded_32(expected_hex@) {
            None => r matches Err(TarballHashError::ExpectedHashIsInvalid(_)),
            Some(d) => if sha256_of(contents@) == d {
                r is Ok
            } else {
                r matches Err(TarballHashError::WrongHash { recomputed_hash }) && recomputed_hash@ == lower_hex_of(sha256_of(contents@))
            },
        },
{
    let expected = match expected_tarball_hash(expected_hex) {
        Ok(v) => v,
        Err(e) => {
            return Err(e);
        },
    };
    let recomputed = sha256(contents);
    if crate::dep_resolution::bytes_eq(&recomputed, &expected) {
        Ok(())
    } else {
        Err(TarballHashError::WrongHash { recomputed_hash: lower_hex(recomputed.as_slice()) })
    }
}

/// What is known of a file's modification time: the file is missing, its
/// time cannot be had, or it was modified at this many nanoseconds from the
/// Unix epoch (negative before it).
pub enum FileTime {
    Missing,
    Unknown,
    At(i128),
}

/// Whether a built file is newer than the file it was built from: a missing
/// or undated built file is not; one built from a missing file is; one built
/// from an undated file is not.
pub open spec fn up_to_date_spec(target: FileTime, dep: FileTime) -> bool {
    match (target, dep) {
        (FileTime::At(t), FileTime::At(d)) => t > d,
        (FileTime::At(_), FileTime::Missing) => true,
        _ => false,
    }
}

/// Whether a built file is newer than the file it was built from (see [`up_to_date_spec`]).
pub fn up_to_date(target: FileTime, dep: FileTime) -> (r: bool)
    ensures
        r == up_to_date_spec(target, dep),
{
    match (target, dep) {
        (FileTime::At(t), FileTime::At(d)) => t > d,
        (FileTime::At(_), FileTime::Missing) => true,
        _ => false,
    }
}

/// Whether a parser given by name is the one built in: Python, by any of its names.
pub fn builtin_parser_named(name: &str) -> (r: bool)
    ensures
        r == (crate::language_name::language_known(name@) && crate::language_name::resolve_name(name@) == "Python"@),
{
    proof { reveal_strlit("Python"); }
    match crate::language_name::LanguageName::from_name(name) {
        Ok(l) => str_eq(l.as_str(), "Python"),
        Err(_) => false,
    }
}

/// `tree_sitter::MIN_COMPATIBLE_LANGUAGE_VERSION` and `tree_sitter::LANGUAGE_VERSION`:
/// the oldest and newest grammar ABI versions that this tree-sitter reads,
/// which its source sets to 13 and 15.
#[verifier::external_body]
fn supported_abi_versions() -> (r: (usize, usize))
    ensures
        r == (13usize, 15usize),
{
    (tree_sitter::MIN_COMPATIBLE_LANGUAGE_VERSION, tree_sitter::LANGUAGE_VERSION)
}

/// The grammar ABI versions that this tree-sitter reads.
pub open spec fn abi_supported(version: usize) -> bool {
    13 <= version <= 15
}

/// Whether a grammar of ABI `version` can be used by this tree-sitter.
pub fn abi_version_supported(version: usize) -> (r: bool)
    ensures
        r == abi_supported(version),
{
    let (min, max) = supported_abi_versions();
    min <= version && version <= max
}

/// What building a grammar asks of its caller next.
#[derive(Debug)]
pub enum BuildStep {
    /// Load the grammar as it is (compiling it if its sources are newer);
    /// report with [`ParserBuild::loaded`].
    TryLoad,
    /// Check whether `parser.c` exists in the grammar's sources; report with
    /// [`ParserBuild::parser_c_checked`].
    CheckParserC,
    /// Run `tree-sitter generate` next to the sources; report with [`ParserBuild::generated`].
    Generate,
    /// Compile the grammar afresh and load it; report with [`ParserBuild::rebuilt`].
    Rebuild,
    /// The grammar is loaded.
    Done,
    Failed(BuildFailure),
}

/// Why a grammar could not be built.
#[derive(Debug)]
pub enum BuildFailure {
    /// `tree-sitter generate` could not be run; the system's message.
    GeneratorNotFound(String),
    /// `tree-sitter generate` failed; how it exited.
    GenerateFailed { status: String },
    /// Compiling the grammar failed; the compiler's message.
    CompileFailed(String),
}

/// What `tree-sitter generate` printed, and whether it succeeded.
pub struct GenerateOutput {
    pub stdout: Vec<u8>,
    pub stderr: Vec<u8>,
    pub success: bool,
    /// How it exited, as the system describes it.
    pub status: String,
}

/// Where a build stands.
#[derive(Copy, Clone, Debug, PartialEq, Eq, Structural)]
pub enum BuildPhase {
    Loading,
    CheckingParserC,
    Generating,
    Rebuilding,
    Finished,
}

/// Loads a grammar from its sources: as it is, unless a rebuild is forced or
/// what loads is of an ABI this tree-sitter cannot read; otherwise afresh,
/// first generating `parser.c` if the sources lack it.
pub struct ParserBuild {
    has_parent: bool,
    phase: BuildPhase,
}

/// The line logged for one stream of `tree-sitter generate`: its text, trimmed,
/// if it is UTF-8 and not blank; its bytes if it is not UTF-8 and not empty.
pub open spec fn generate_log_spec(bytes: Seq<u8>) -> Option<Seq<char>> {
    if vstd::utf8::valid_utf8(bytes) {
        let t = trim_trailing_white_space(trim_leading_white_space(vstd::utf8::decode_utf8(bytes)));
        if t.len() > 0 { Some("tree-sitter generate: "@ + t) } else { None }
    } else if bytes.len() > 0 {
        Some("tree-sitter generate: "@ + byte_list(bytes))
    } else {
        None
    }
}

/// The line to log for one stream of `tree-sitter generate` (see [`generate_log_spec`]).
pub fn generate_log(bytes: &Vec<u8>) -> (r: Option<String>)
    ensures
        match r {
            Some(s) => generate_log_spec(bytes@) == Some(s@),
            None => generate_log_spec(bytes@) is None,
        },
{
    proof { reveal_strlit("tree-sitter generate: "); }
    match str_from_utf8(bytes.as_slice()) {
        Some(text) => {
            proof { vstd::utf8::encode_utf8_decode_utf8(text@); }
            let t = trim(text);
            if t.unicode_len() > 0 {
                Some(String::from_str("tree-sitter generate: ").concat(t.as_str()))
            } else {
                None
            }
        },
        None => {
            if bytes.len() > 0 {
                Some(String::from_str("tree-sitter generate: ").concat(crate::run_grep::byte_list_string(bytes).as_str()))
            } else {
                None
            }
        },
    }
}

impl ParserBuild {
    /// Where the build stands.
    pub closed spec fn phase(&self) -> BuildPhase {
        self.phase
    }

    /// Whether the sources have a parent directory (where `tree-sitter generate` runs).
    pub closed spec fn parent_known(&self) -> bool {
        self.has_parent
    }

    /// The step after the first load: check for `parser.c` when there is a
    /// directory to generate it in, else rebuild.
    fn after_load(&mut self) -> (r: BuildStep)
        ensures
            final(self).parent_known() == old(self).parent_known(),
            old(self).parent_known() ==> r is CheckParserC && final(self).phase() == BuildPhase::CheckingParserC,
            !old(self).parent_known() ==> r is Rebuild && final(self).phase() == BuildPhase::Rebuilding,
    {
        if self.has_parent {
            self.phase = BuildPhase::CheckingParserC;
            BuildStep::CheckParserC
        } else {
            self.phase = BuildPhase::Rebuilding;
            BuildStep::Rebuild
        }
    }

    /// A build of the sources, forced afresh or not; `has_parent` tells whether
    /// the sources' path has a parent directory.
    pub fn new(force_rebuild: bool, has_parent: bool) -> (r: (Self, BuildStep))
        ensures
            r.0.parent_known() == has_parent,
            !force_rebuild ==> r.1 is TryLoad && r.0.phase() == BuildPhase::Loading,
            force_rebuild && has_parent ==> r.1 is CheckParserC && r.0.phase() == BuildPhase::CheckingParserC,
            force_rebuild && !has_parent ==> r.1 is Rebuild && r.0.phase() == BuildPhase::Rebuilding,
    {
        let mut b = ParserBuild { has_parent, phase: BuildPhase::Loading };
        if force_rebuild {
            let step = b.after_load();
            (b, step)
        } else {
            (b, BuildStep::TryLoad)
        }
    }

    /// After loading as it is: `abi_version` is the loaded grammar's ABI
    /// version, or `None` if it did not load. A grammar of a supported ABI is done.
    pub fn loaded(&mut self, abi_version: Option<usize>) -> (r: BuildStep)
        requires
            old(self).phase() == BuildPhase::Loading,
        ensures
            final(self).parent_known() == old(self).parent_known(),
            (abi_version matches Some(v) && abi_supported(v)) ==> r is Done && final(self).phase() == BuildPhase::Finished,
            !(abi_version matches Some(v) && abi_supported(v)) ==> {
                &&& old(self).parent_known() ==> r is CheckParserC && final(self).phase() == BuildPhase::CheckingParserC
                &&& !old(self).parent_known() ==> r is Rebuild && final(self).phase() == BuildPhase::Rebuilding
            },
    {
        match abi_version {
            Some(v) => if abi_version_supported(v) {
                self.phase = BuildPhase::Finished;
                return BuildStep::Done;
            },
            None => {},
        }
        self.after_load()
    }

    /// After checking for `parser.c`: `exists` is `Some` with the answer, or
    /// `None` if it could not be told. Only a missing file is generated.
    pub fn parser_c_checked(&mut self, exists: Option<bool>) -> (r: BuildStep)
        requires
            old(self).phase() == BuildPhase::CheckingParserC,
        ensures
            exists == Some(false) ==> r is Generate && final(self).phase() == BuildPhase::Generating,
            exists != Some(false) ==> r is Rebuild && final(self).phase() == BuildPhase::Rebuilding,
    {
        match exists {
            Some(false) => {
                self.phase = BuildPhase::Generating;
                BuildStep::Generate
            },
            _ => {
                self.phase = BuildPhase::Rebuilding;
                BuildStep::Rebuild
            },
        }
    }

    /// After running `tree-sitter generate`: its output, or why it could not run.
    pub fn generated(&mut self, result: &Result<GenerateOutput, String>) -> (r: BuildStep)
        requires
            old(self).phase() == BuildPhase::Generating,
        ensures
            result matches Err(m) ==> r matches BuildStep::Failed(BuildFailure::GeneratorNotFound(e)) && e@ == m@,
            result matches Ok(o) ==> if o.success {
                r is Rebuild && final(self).phase() == BuildPhase::Rebuilding
            } else {
                r matches BuildStep::Failed(BuildFailure::GenerateFailed { status }) && status@ == o.status@
            },
    {
        self.phase = BuildPhase::Finished;
        match result {
            Err(m) => BuildStep::Failed(BuildFailure::GeneratorNotFound(m.clone())),
            Ok(o) => if o.success {
                self.phase = BuildPhase::Rebuilding;
                BuildStep::Rebuild
            } else {
                BuildStep::Failed(BuildFailure::GenerateFailed { status: o.status.clone() })
            },
        }
    }

    /// After compiling afresh: the compiler's error message, if any.
    pub fn rebuilt(&mut self, result: Result<(), String>) -> (r: BuildStep)
        requires
            old(self).phase() == BuildPhase::Rebuilding,
        ensures
            final(self).phase() == BuildPhase::Finished,
            result is Ok ==> r is Done,
            result matches Err(m) ==> r matches BuildStep::Failed(BuildFailure::CompileFailed(e)) && e@ == m@,
    {
        self.phase = BuildPhase::Finished;
        match result {
            Ok(()) => BuildStep::Done,
            Err(m) => BuildStep::Failed(BuildFailure::CompileFailed(m)),
        }
    }
}

} // verus!
