//! The update check: what a cloud share offers, whether that is newer than
//! the running version, under which name an installer is stored, and which
//! installers of earlier updates can go.
//!
//! The caller asks the share and touches the disk; what the answers mean is
//! decided here.

use vstd::prelude::*;
use vstd::string::StringExecFns;
use crate::fetch::is_success;
use crate::normalize::{lemma_position_of, position_of};
use crate::probe::Sibling;
use crate::text::{
    capture, captured, chars_of, path_extension, percent_decode, percent_decoded, same_text,
    starts_with, string_of,
};

verus! {

/// What the update check found.
#[derive(Debug, Clone)]
pub struct UpdateInfo {
    /// The version on offer, or the running one where there is no update.
    pub version: String,
    /// Where the installer can be downloaded; empty where there is no update.
    pub download_url: String,
    /// The installer's file name; empty where there is no update.
    pub filename: String,
    /// Whether the version on offer is newer than the running one.
    pub has_update: bool,
}

/// An `UpdateInfo` as contracts speak of it.
pub struct UpdateView {
    pub version: Seq<char>,
    pub download_url: Seq<char>,
    pub filename: Seq<char>,
    pub has_update: bool,
}

impl View for UpdateInfo {
    type V = UpdateView;

    open spec fn view(&self) -> UpdateView {
        UpdateView {
            version: self.version@,
            download_url: self.download_url@,
            filename: self.filename@,
            has_update: self.has_update,
        }
    }
}

/// The systems an installer is published for.
#[derive(Debug, Clone, Copy, PartialEq, Eq, Structural)]
pub enum Platform {
    Windows,
    MacOs,
    Linux,
}

/// Why the cloud share gave no offer.
#[derive(Debug, Clone, Copy, PartialEq, Eq, Structural)]
pub enum CloudError {
    /// The share answered with a status outside 200..=299.
    Status(u16),
    /// The answer names no attachment.
    MissingContentDisposition,
    /// The attachment's encoded file name is no UTF-8.
    UndecodableFilename,
    /// The attachment has no file name.
    MissingFilename,
    /// The file name spells no version.
    MissingVersion,
}

/// What the cloud share answered to a HEAD request for the installer.
#[derive(Debug)]
pub struct CloudHead {
    /// The HTTP status.
    pub status: u16,
    /// The `Content-Disposition` header, where there is one that is text.
    pub content_disposition: Option<String>,
}

/// What `str::parse::<u32>` makes of a string: the number it spells in decimal
/// digits, with or without a `+` in front, where it spells one that fits.
pub uninterp spec fn parsed_u32(s: Seq<char>) -> Option<u32>;

/// `str::parse::<u32>`: the number that `s` spells, if it spells one. The
/// result depends on the characters of `s` alone.
#[verifier::external_body]
fn parse_u32(s: &str) -> (n: Option<u32>)
    ensures
        n == parsed_u32(s@),
{
    s.parse::<u32>().ok()
}

/// The fields of `s` between occurrences of `c`. There is always at least one
/// field, and fields may be empty.
pub open spec fn split_on(s: Seq<char>, c: char) -> Seq<Seq<char>>
    decreases s.len(),
{
    let at = position_of(s, c) as int;
    if at >= s.len() {
        seq![s]
    } else {
        seq![s.take(at)] + split_on(s.skip(at + 1), c)
    }
}

/// The numbers among `fields`, in order; a field that spells no number is
/// passed over.
pub open spec fn numbers_in(fields: Seq<Seq<char>>) -> Seq<u32>
    decreases fields.len(),
{
    if fields.len() == 0 {
        Seq::empty()
    } else {
        match parsed_u32(fields[0]) {
            Some(n) => seq![n] + numbers_in(fields.drop_first()),
            None => numbers_in(fields.drop_first()),
        }
    }
}

/// The numeric parts of a dotted version string.
pub open spec fn version_parts(version: Seq<char>) -> Seq<u32> {
    numbers_in(split_on(version, '.'))
}

/// Whether the version with parts `remote` is newer than the one with parts
/// `current`: the first part in which they differ decides, and where neither
/// differs in the parts they share, the longer one is newer.
pub open spec fn newer(remote: Seq<u32>, current: Seq<u32>) -> bool
    decreases remote.len(),
{
    if remote.len() == 0 || current.len() == 0 {
        remote.len() > current.len()
    } else if remote[0] != current[0] {
        remote[0] > current[0]
    } else {
        newer(remote.drop_first(), current.drop_first())
    }
}

/// The numbers of a single field are the number it spells, if any.
proof fn lemma_numbers_in_one(field: Seq<char>)
    ensures
        numbers_in(seq![field]) == match parsed_u32(field) {
            Some(n) => seq![n],
            None => Seq::<u32>::empty(),
        },
{
    let fields = seq![field];
    assert(fields.drop_first() =~= Seq::<Seq<char>>::empty());
    assert(numbers_in(fields.drop_first()) =~= Seq::<u32>::empty());
    match parsed_u32(field) {
        Some(n) => {
            assert(seq![n] + Seq::<u32>::empty() =~= seq![n]);
        },
        None => {},
    }
}

/// The numbers of a field followed by more fields.
proof fn lemma_numbers_in_cons(field: Seq<char>, rest: Seq<Seq<char>>)
    ensures
        numbers_in(seq![field] + rest) == match parsed_u32(field) {
            Some(n) => seq![n] + numbers_in(rest),
            None => numbers_in(rest),
        },
{
    let fields = seq![field] + rest;
    assert(fields[0] == field);
    assert(fields.drop_first() =~= rest);
}

/// Parses a dotted version string into its numeric parts.
pub fn parse_version(version: &str) -> (parts: Vec<u32>)
    ensures
        parts@ == version_parts(version@),
{
    let chars = chars_of(version);
    let mut parts: Vec<u32> = Vec::new();
    let mut start: usize = 0;
    assert(chars@.skip(0) =~= chars@);
    assert(Seq::<u32>::empty() + version_parts(version@) =~= version_parts(version@));
    loop
        invariant_except_break
            start <= chars.len(),
            chars@ == version@,
            version_parts(version@) == parts@ + numbers_in(
                split_on(chars@.skip(start as int), '.'),
            ),
        ensures
            parts@ == version_parts(version@),
        decreases chars.len() - start,
    {
        let ghost tail = chars@.skip(start as int);
        let ghost before = parts@;
        let mut end: usize = start;
        while end < chars.len() && chars[end] != '.'
            invariant
                start <= end <= chars.len(),
                forall|j: int| start <= j < end ==> chars@[j] != '.',
            decreases chars.len() - end,
        {
            end += 1;
        }
        proof {
            assert forall|j: int| 0 <= j < end - start implies tail[j] != '.' by {
                assert(tail[j] == chars@[start + j]);
            }
            lemma_position_of(tail, '.', end - start);
        }
        let field = string_of(&chars, start, end);
        assert(field@ =~= tail.take(end - start));
        let number = parse_u32(field.as_str());
        if let Some(n) = number {
            parts.push(n);
        }
        if end >= chars.len() {
            proof {
                assert(tail.take(end - start) =~= tail);
                lemma_numbers_in_one(tail);
                match number {
                    Some(n) => {
                        assert(parts@ =~= before + seq![n]);
                    },
                    None => {
                        assert(parts@ =~= before + Seq::<u32>::empty());
                    },
                }
            }
            break ;
        }
        proof {
            let rest = split_on(tail.skip(end - start + 1), '.');
            lemma_numbers_in_cons(tail.take(end - start), rest);
            assert(tail.skip(end - start + 1) =~= chars@.skip(end + 1));
            match number {
                Some(n) => {
                    assert(parts@ + numbers_in(rest) =~= before + (seq![n] + numbers_in(rest)));
                },
                None => {},
            }
        }
        start = end + 1;
    }
    parts
}

/// Whether `remote` names a newer version than `current`.
///
/// Versions are compared part by part as numbers, so `2.10` is newer than
/// `2.9`; with equal shared parts the version with more parts is the newer one.
pub fn is_newer(remote: &str, current: &str) -> (result: bool)
    ensures
        result == newer(version_parts(remote@), version_parts(current@)),
{
    let remote_parts = parse_version(remote);
    let current_parts = parse_version(current);
    let mut i: usize = 0;
    assert(remote_parts@.skip(0) =~= remote_parts@);
    assert(current_parts@.skip(0) =~= current_parts@);
    while i < remote_parts.len() && i < current_parts.len()
        invariant
            i <= remote_parts.len(),
            i <= current_parts.len(),
            remote_parts@ == version_parts(remote@),
            current_parts@ == version_parts(current@),
            newer(remote_parts@, current_parts@) == newer(
                remote_parts@.skip(i as int),
                current_parts@.skip(i as int),
            ),
        decreases remote_parts.len() - i,
    {
        let r = remote_parts[i];
        let c = current_parts[i];
        proof {
            let rest_r = remote_parts@.skip(i as int);
            let rest_c = current_parts@.skip(i as int);
            assert(rest_r[0] == r && rest_c[0] == c);
            assert(rest_r.drop_first() =~= remote_parts@.skip(i + 1));
            assert(rest_c.drop_first() =~= current_parts@.skip(i + 1));
        }
        if r > c {
            return true;
        }
        if r < c {
            return false;
        }
        i += 1;
    }
    remote_parts.len() > current_parts.len()
}

/// The share on which the installer for `platform` is published.
pub open spec fn cloud_url_of(platform: Platform) -> Seq<char> {
    match platform {
        Platform::Windows => "https://cloud.vtbmoyu.com/s/JKo6TTSGaiGFAts"@,
        Platform::MacOs => "https://cloud.vtbmoyu.com/s/KpR9YqwJgE4tZmy"@,
        Platform::Linux => "https://cloud.vtbmoyu.com/s/6H6TS3BqmLzBHBP"@,
    }
}

/// The share on which the installer for `platform` is published.
pub fn cloud_url(platform: Platform) -> (url: &'static str)
    ensures
        url@ == cloud_url_of(platform),
{
    match platform {
        Platform::Windows => "https://cloud.vtbmoyu.com/s/JKo6TTSGaiGFAts",
        Platform::MacOs => "https://cloud.vtbmoyu.com/s/KpR9YqwJgE4tZmy",
        Platform::Linux => "https://cloud.vtbmoyu.com/s/6H6TS3BqmLzBHBP",
    }
}

/// How many times `c` stands at the end of `s` behind any other character.
pub open spec fn trailing_run(s: Seq<char>, c: char) -> nat
    decreases s.len(),
{
    if s.len() > 0 && s.last() == c {
        1 + trailing_run(s.drop_last(), c)
    } else {
        0
    }
}

/// `s` without the run of `c` at its end.
pub open spec fn without_trailing(s: Seq<char>, c: char) -> Seq<char> {
    s.take(s.len() - trailing_run(s, c))
}

/// The address from which a share hands out its file.
pub open spec fn download_url(share: Seq<char>) -> Seq<char> {
    without_trailing(share, '/') + "/download"@
}

/// `trailing_run` is the length of the longest suffix made of `c` alone.
pub proof fn lemma_trailing_run(s: Seq<char>, c: char, n: int)
    requires
        0 <= n <= s.len(),
        forall|j: int| s.len() - n <= j < s.len() ==> s[j] == c,
        n < s.len() ==> s[s.len() - n - 1] != c,
    ensures
        trailing_run(s, c) == n,
    decreases s.len(),
{
    if n > 0 {
        let rest = s.drop_last();
        assert forall|j: int| rest.len() - (n - 1) <= j < rest.len() implies rest[j] == c by {
            assert(rest[j] == s[j]);
        }
        lemma_trailing_run(rest, c, n - 1);
    }
}

/// Builds the address from which a share hands out its file.
pub fn download_url_of(share: &str) -> (url: String)
    ensures
        url@ == download_url(share@),
{
    let chars = chars_of(share);
    let mut end: usize = chars.len();
    while end > 0 && chars[end - 1] == '/'
        invariant
            end <= chars.len(),
            forall|j: int| end <= j < chars.len() ==> chars@[j] == '/',
        decreases end,
    {
        end -= 1;
    }
    proof {
        lemma_trailing_run(chars@, '/', chars.len() - end);
    }
    let mut url = string_of(&chars, 0, end);
    url.append("/download");
    url
}

/// The pattern of a version in a file name: `v`, then two or more numbers
/// with dots between them.
pub open spec fn version_pattern() -> Seq<char> {
    "v(\\d+(\\.\\d+)+)"@
}

/// The pattern of a quoted file name in a `Content-Disposition` header.
pub open spec fn quoted_filename_pattern() -> Seq<char> {
    "filename=\"([^\"]+)\""@
}

/// The pattern of a percent-encoded UTF-8 file name in a
/// `Content-Disposition` header.
pub open spec fn encoded_filename_pattern() -> Seq<char> {
    "filename\\*=UTF-8''([^;]+)"@
}

/// The version that a file name spells, if it spells one.
pub open spec fn version_in(filename: Seq<char>) -> Option<Seq<char>> {
    captured(version_pattern(), filename, 1)
}

/// Reads the version out of an installer's file name, as in
/// `ReversedFront_Setup_v2.10.exe` or `ReversedFront_v2.11.2.exe`.
pub fn extract_version_from_filename(filename: &str) -> (version: Option<String>)
    ensures
        version.deep_view() == version_in(filename@),
{
    capture("v(\\d+(\\.\\d+)+)", filename, 1)
}

/// The file name that a header announces, given what its quoted form holds
/// and, where that is missing, what its encoded form decodes to. The outer
/// `None` of `encoded` says that the header has no encoded form, the inner one
/// that it does not decode.
pub open spec fn filename_among(
    quoted: Option<Seq<char>>,
    encoded: Option<Option<Seq<char>>>,
) -> Result<Seq<char>, CloudError> {
    let named = match quoted {
        Some(name) => Ok(name),
        None => match encoded {
            Some(Some(name)) => Ok(name),
            Some(None) => Err(CloudError::UndecodableFilename),
            None => Ok(Seq::empty()),
        },
    };
    match named {
        Ok(name) => if name.len() == 0 {
            Err(CloudError::MissingFilename)
        } else {
            Ok(name)
        },
        Err(error) => Err(error),
    }
}

/// The file name that a `Content-Disposition` header announces.
pub open spec fn announced_filename(header: Seq<char>) -> Result<Seq<char>, CloudError> {
    filename_among(
        captured(quoted_filename_pattern(), header, 1),
        match captured(encoded_filename_pattern(), header, 1) {
            Some(encoded) => Some(percent_decoded(encoded)),
            None => None,
        },
    )
}

/// A `Result` with a string in it, as contracts speak of it.
pub open spec fn text_result(result: Result<String, CloudError>) -> Result<Seq<char>, CloudError> {
    match result {
        Ok(text) => Ok(text@),
        Err(error) => Err(error),
    }
}

/// Picks the file name that a header announces from what its two forms hold.
pub fn choose_filename(quoted: Option<String>, encoded: Option<Option<String>>) -> (name: Result<
    String,
    CloudError,
>)
    ensures
        text_result(name) == filename_among(quoted.deep_view(), encoded.deep_view()),
{
    let named = match quoted {
        Some(name) => name,
        None => match encoded {
            Some(Some(name)) => name,
            Some(None) => {
                return Err(CloudError::UndecodableFilename);
            },
            None => String::new(),
        },
    };
    if named.as_str().is_empty() {
        Err(CloudError::MissingFilename)
    } else {
        Ok(named)
    }
}

/// Reads the file name out of a `Content-Disposition` header: the quoted form
/// where there is one, else the encoded form, decoded.
pub fn parse_content_disposition(header: &str) -> (name: Result<String, CloudError>)
    ensures
        text_result(name) == announced_filename(header@),
{
    let quoted = capture("filename=\"([^\"]+)\"", header, 1);
    if quoted.is_some() {
        return choose_filename(quoted, None);
    }
    let encoded = match capture("filename\\*=UTF-8''([^;]+)", header, 1) {
        Some(encoded) => Some(percent_decode(encoded.as_str())),
        None => None,
    };
    choose_filename(None, encoded)
}

/// What a share offers, as contracts speak of it.
pub open spec fn offer_view(offer: Result<UpdateInfo, CloudError>) -> Result<
    UpdateView,
    CloudError,
> {
    match offer {
        Ok(info) => Ok(info@),
        Err(error) => Err(error),
    }
}

/// The offer that an answer of the share amounts to, given the file name the
/// answer announces and the version that name spells.
pub open spec fn offer_from(
    share: Seq<char>,
    status: u16,
    announced: Option<Result<Seq<char>, CloudError>>,
    version: Option<Seq<char>>,
) -> Result<UpdateView, CloudError> {
    if !is_success(status) {
        Err(CloudError::Status(status))
    } else {
        match announced {
            None => Err(CloudError::MissingContentDisposition),
            Some(Err(error)) => Err(error),
            Some(Ok(filename)) => match version {
                None => Err(CloudError::MissingVersion),
                Some(version) => Ok(
                    UpdateView {
                        version,
                        download_url: download_url(share),
                        filename,
                        has_update: false,
                    },
                ),
            },
        }
    }
}

/// The offer that an answer of the share amounts to.
pub open spec fn cloud_offer(share: Seq<char>, head: CloudHead) -> Result<UpdateView, CloudError> {
    let announced = match head.content_disposition {
        Some(header) => Some(announced_filename(header@)),
        None => None,
    };
    let version = match announced {
        Some(Ok(filename)) => version_in(filename),
        _ => None,
    };
    offer_from(share, head.status, announced, version)
}

/// Puts an offer together from the parts of an answer. Whether the offer is an
/// update is left to `check_update`.
pub fn assemble_offer(
    share: &str,
    status: u16,
    announced: Option<Result<String, CloudError>>,
    version: Option<String>,
) -> (offer: Result<UpdateInfo, CloudError>)
    ensures
        offer_view(offer) == offer_from(
            share@,
            status,
            match announced {
                Some(name) => Some(text_result(name)),
                None => None,
            },
            version.deep_view(),
        ),
{
    if !(200 <= status && status < 300) {
        return Err(CloudError::Status(status));
    }
    match announced {
        None => Err(CloudError::MissingContentDisposition),
        Some(Err(error)) => Err(error),
        Some(Ok(filename)) => match version {
            None => Err(CloudError::MissingVersion),
            Some(version) => Ok(
                UpdateInfo {
                    version,
                    download_url: download_url_of(share),
                    filename,
                    has_update: false,
                },
            ),
        },
    }
}

/// Reads the offer out of the share's answer to a HEAD request.
pub fn check_cloud(share: &str, head: &CloudHead) -> (offer: Result<UpdateInfo, CloudError>)
    ensures
        offer_view(offer) == cloud_offer(share@, *head),
{
    let announced = match &head.content_disposition {
        Some(header) => Some(parse_content_disposition(header.as_str())),
        None => None,
    };
    let version = match &announced {
        Some(Ok(filename)) => extract_version_from_filename(filename.as_str()),
        _ => None,
    };
    assemble_offer(share, head.status, announced, version)
}

/// What the update check reports: the offer, marked as an update, where it is
/// newer than the running version; else the running version and nothing to
/// download.
pub open spec fn update_report(current: Seq<char>, offer: Option<UpdateView>) -> UpdateView {
    match offer {
        Some(info) if newer(version_parts(info.version), version_parts(current)) => UpdateView {
            has_update: true,
            ..info
        },
        _ => UpdateView {
            version: current,
            download_url: Seq::empty(),
            filename: Seq::empty(),
            has_update: false,
        },
    }
}

/// Decides whether an offer is an update for the running version.
pub fn check_update(current_version: &str, offer: Option<UpdateInfo>) -> (report: UpdateInfo)
    ensures
        report@ == update_report(
            current_version@,
            match offer {
                Some(info) => Some(info@),
                None => None,
            },
        ),
{
    if let Some(info) = offer {
        if is_newer(info.version.as_str(), current_version) {
            return UpdateInfo {
                version: info.version,
                download_url: info.download_url,
                filename: info.filename,
                has_update: true,
            };
        }
    }
    UpdateInfo {
        version: current_version.to_owned(),
        download_url: String::new(),
        filename: String::new(),
        has_update: false,
    }
}

/// Whether a directory entry is an installer left over from an update: it is
/// not the running program, and its name starts with `ReversedFront_v`.
pub open spec fn is_old_installer(entry: Sibling, exe_path: Seq<char>) -> bool {
    &&& entry.path@ != exe_path
    &&& entry.name matches Some(name)
    &&& "ReversedFront_v"@.is_prefix_of(name@)
}

/// The paths of the old installers among `entries`, in their order.
pub open spec fn old_installers(entries: Seq<Sibling>, exe_path: Seq<char>) -> Seq<Seq<char>>
    decreases entries.len(),
{
    if entries.len() == 0 {
        Seq::empty()
    } else {
        let earlier = old_installers(entries.drop_last(), exe_path);
        if is_old_installer(entries.last(), exe_path) {
            earlier.push(entries.last().path@)
        } else {
            earlier
        }
    }
}

/// Picks the files to delete at startup from the listing of the program's
/// directory: the installers of earlier updates, never the program itself.
pub fn cleanup_old_installers(exe_path: &str, entries: &Vec<Sibling>) -> (doomed: Vec<String>)
    ensures
        doomed.deep_view() == old_installers(entries@, exe_path@),
{
    let mut doomed: Vec<String> = Vec::new();
    let mut i: usize = 0;
    assert(entries@.take(0) =~= Seq::<Sibling>::empty());
    assert(doomed.deep_view() =~= Seq::<Seq<char>>::empty());
    while i < entries.len()
        invariant
            i <= entries.len(),
            doomed.deep_view() == old_installers(entries@.take(i as int), exe_path@),
        decreases entries.len() - i,
    {
        let entry = &entries[i];
        let ghost before = doomed.deep_view();
        let is_program = same_text(entry.path.as_str(), exe_path);
        let named = match &entry.name {
            Some(name) => starts_with(name.as_str(), "ReversedFront_v"),
            None => false,
        };
        if !is_program && named {
            doomed.push(entry.path.clone());
            assert(doomed.deep_view() =~= before.push(entry.path@));
        }
        proof {
            let seen = entries@.take(i + 1);
            assert(seen.drop_last() =~= entries@.take(i as int));
            assert(seen.last() == entries@[i as int]);
        }
        i += 1;
    }
    assert(entries@.take(entries.len() as int) =~= entries@);
    doomed
}

/// The name under which a downloaded installer is stored: `ReversedFront_v`
/// and the version, with the extension of the offered file where it has one;
/// the offered name itself where it spells no version.
pub open spec fn installer_name(
    filename: Seq<char>,
    version: Option<Seq<char>>,
    extension: Option<Seq<char>>,
) -> Seq<char> {
    match version {
        Some(version) => match extension {
            Some(extension) if extension.len() > 0 => "ReversedFront_v"@ + version + "."@
                + extension,
            _ => "ReversedFront_v"@ + version,
        },
        None => filename,
    }
}

/// Builds the name under which a downloaded installer is stored from the
/// version and the extension of the offered file.
pub fn installer_name_from(
    filename: &str,
    version: Option<String>,
    extension: Option<String>,
) -> (name: String)
    ensures
        name@ == installer_name(filename@, version.deep_view(), extension.deep_view()),
{
    match version {
        Some(version) => {
            let mut name = "ReversedFront_v".to_owned();
            name.append(version.as_str());
            if let Some(extension) = extension {
                if !extension.as_str().is_empty() {
                    name.append(".");
                    name.append(extension.as_str());
                }
            }
            name
        },
        None => filename.to_owned(),
    }
}

/// The name under which the installer offered as `filename` is stored.
pub fn installer_file_name(filename: &str) -> (name: String)
    ensures
        exists|extension: Option<Seq<char>>|
            name@ == installer_name(filename@, version_in(filename@), extension),
{
    let version = extract_version_from_filename(filename);
    let extension = path_extension(filename);
    let ghost seen = extension.deep_view();
    let name = installer_name_from(filename, version, extension);
    assert(name@ == installer_name(filename@, version_in(filename@), seen));
    name
}

/// The program that opens an installer on `platform`, where the installer is
/// not started directly.
pub fn installer_opener(platform: Platform) -> (opener: Option<&'static str>)
    ensures
        opener.deep_view() == match platform {
            Platform::Windows => None,
            Platform::MacOs => Some("open"@),
            Platform::Linux => Some("xdg-open"@),
        },
{
    match platform {
        Platform::Windows => None,
        Platform::MacOs => Some("open"),
        Platform::Linux => Some("xdg-open"),
    }
}

} // verus!
