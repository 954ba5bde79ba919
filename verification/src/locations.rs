//! The cache directories the cleaner knows about, and where they lie under the
//! user's home directory.
//!
//! Paths are held as the bytes of their platform encoding (what
//! `OsStr::as_encoded_bytes` gives), so that a path which is not valid UTF-8
//! still names the same entry on disk.

use vstd::prelude::*;
use vstd::utf8::encode_utf8;

verus! {

/// A configured cache location on the local system.
pub struct CacheLocation {
    /// Unique identifier key for CLI selection (e.g. "hf", "pip").
    pub key: &'static str,
    /// Human-readable display name.
    pub name: &'static str,
    /// Path to the cache directory below the home directory, as bytes; absolute
    /// when the home directory is, relative when no home directory is known.
    pub path: Vec<u8>,
}

/// The path separator `/`.
pub open spec fn separator() -> u8 {
    47u8
}

/// `base` extended by the path `rel`, the way `PathBuf::push` does it on Unix:
/// an absolute `rel` replaces `base`; otherwise a separator is put between the
/// two unless `base` is empty or already ends with one.
pub open spec fn path_join(base: Seq<u8>, rel: Seq<u8>) -> Seq<u8> {
    if rel.len() > 0 && rel[0] == separator() {
        rel
    } else if base.len() == 0 {
        rel
    } else if base.last() == separator() {
        base + rel
    } else {
        base + seq![separator()] + rel
    }
}

/// Appends the bytes of `s` to `v`.
pub fn push_bytes(v: &mut Vec<u8>, s: &[u8])
    ensures
        final(v)@ == old(v)@ + s@,
{
    let mut i: usize = 0;
    while i < s.len()
        invariant
            i <= s.len(),
            v@ == old(v)@ + s@.take(i as int),
        decreases s.len() - i,
    {
        assert(s@.take(i + 1) =~= s@.take(i as int).push(s@[i as int]));
        v.push(s[i]);
        i += 1;
    }
    assert(s@.take(s.len() as int) =~= s@);
}

/// Joins the path `rel` onto `base`.
pub fn join_path(base: &[u8], rel: &[u8]) -> (res: Vec<u8>)
    ensures
        res@ == path_join(base@, rel@),
{
    let mut res: Vec<u8> = Vec::new();
    if rel.len() > 0 && rel[0] == 47u8 {
        push_bytes(&mut res, rel);
    } else if base.len() == 0 {
        push_bytes(&mut res, rel);
    } else if base[base.len() - 1] == 47u8 {
        push_bytes(&mut res, base);
        push_bytes(&mut res, rel);
    } else {
        push_bytes(&mut res, base);
        res.push(47u8);
        push_bytes(&mut res, rel);
    }
    assert(res@ =~= path_join(base@, rel@));
    res
}

/// The bytes of an optional path.
pub open spec fn opt_bytes(o: Option<Vec<u8>>) -> Option<Seq<u8>> {
    match o {
        Some(v) => Some(v@),
        None => None,
    }
}

/// The home directory to use: the one the system reports, else the value of
/// `HOME`, else the empty path.
pub open spec fn home_choice(system_home: Option<Seq<u8>>, env_home: Option<Seq<u8>>) -> Seq<u8> {
    match system_home {
        Some(h) => h,
        None => match env_home {
            Some(h) => h,
            None => Seq::empty(),
        },
    }
}

/// Picks the home directory from what the system and the `HOME` variable say.
pub fn resolve_home(system_home: Option<Vec<u8>>, env_home: Option<Vec<u8>>) -> (home: Vec<u8>)
    ensures
        home@ == home_choice(opt_bytes(system_home), opt_bytes(env_home)),
{
    match system_home {
        Some(h) => h,
        None => match env_home {
            Some(h) => h,
            None => Vec::new(),
        },
    }
}

/// The pip cache, relative to the home directory.
pub open spec fn pip_rel(macos: bool) -> Seq<char> {
    if macos {
        "Library/Caches/pip"@
    } else {
        ".cache/pip"@
    }
}

/// The Cursor editor logs, relative to the home directory.
pub open spec fn cursor_rel(macos: bool) -> Seq<char> {
    if macos {
        "Library/Application Support/Cursor/logs"@
    } else {
        ".config/Cursor/logs"@
    }
}

/// What the `i`-th location is: key, display name, and path below the home
/// directory.
pub open spec fn location_spec(i: int, macos: bool) -> (Seq<char>, Seq<char>, Seq<char>) {
    if i == 0 {
        ("hf"@, "Hugging Face Cache"@, ".cache/huggingface/hub"@)
    } else if i == 1 {
        ("ollama"@, "Ollama Models"@, ".ollama/models/manifests/registry.ollama.ai/library"@)
    } else if i == 2 {
        ("pip"@, "Pip Package Cache"@, pip_rel(macos))
    } else if i == 3 {
        ("torch"@, "PyTorch Cache"@, ".cache/torch/hub/checkpoints"@)
    } else {
        ("cursor"@, "Cursor Editor Logs"@, cursor_rel(macos))
    }
}

/// `locs` are the five known caches below `home`, in their fixed order.
pub open spec fn locations_below(locs: Seq<CacheLocation>, home: Seq<u8>, macos: bool) -> bool {
    &&& locs.len() == 5
    &&& forall|i: int|
        0 <= i < 5 ==> {
            let (k, n, rel) = #[trigger] location_spec(i, macos);
            &&& locs[i].key@ == k
            &&& locs[i].name@ == n
            &&& locs[i].path@ == path_join(home, encode_utf8(rel))
        }
}

fn location(key: &'static str, name: &'static str, home: &[u8], rel: &str) -> (loc:
    CacheLocation)
    ensures
        loc.key == key,
        loc.name == name,
        loc.path@ == path_join(home@, encode_utf8(rel@)),
{
    CacheLocation { key, name, path: join_path(home, rel.as_bytes()) }
}

/// The predefined cache locations below the home directory `home`; `macos`
/// selects the macOS layout of the pip cache and the Cursor logs.
pub fn scan_locations(home: &[u8], macos: bool) -> (locs: Vec<CacheLocation>)
    ensures
        locations_below(locs@, home@, macos),
{
    let pip = if macos {
        "Library/Caches/pip"
    } else {
        ".cache/pip"
    };
    let cursor = if macos {
        "Library/Application Support/Cursor/logs"
    } else {
        ".config/Cursor/logs"
    };
    let mut locs: Vec<CacheLocation> = Vec::new();
    locs.push(location("hf", "Hugging Face Cache", home, ".cache/huggingface/hub"));
    locs.push(
        location(
            "ollama",
            "Ollama Models",
            home,
            ".ollama/models/manifests/registry.ollama.ai/library",
        ),
    );
    locs.push(location("pip", "Pip Package Cache", home, pip));
    locs.push(location("torch", "PyTorch Cache", home, ".cache/torch/hub/checkpoints"));
    locs.push(location("cursor", "Cursor Editor Logs", home, cursor));
    assert forall|i: int| 0 <= i < 5 implies {
        let (k, n, rel) = #[trigger] location_spec(i, macos);
        &&& locs@[i].key@ == k
        &&& locs@[i].name@ == n
        &&& locs@[i].path@ == path_join(home@, encode_utf8(rel))
    } by {}
    locs
}

/// The home directory as the system reports it (`dirs::home_dir`), as the
/// bytes of its platform encoding (`OsString::into_encoded_bytes`). What it
/// returns depends on the environment and the user database, so nothing is
/// stated of it.
#[verifier::external_body]
fn system_home_dir() -> Option<Vec<u8>> {
    dirs::home_dir().map(|p| p.into_os_string().into_encoded_bytes())
}

/// Retrieves all predefined cache locations, together with the home directory
/// the system reported (`dirs::home_dir`, as bytes). The locations lie below
/// that home directory, else below `env_home` (the value of `HOME`, when it is
/// set and valid Unicode), else below the empty path.
pub fn get_scan_locations(env_home: Option<Vec<u8>>, macos: bool) -> (found: (
    Vec<CacheLocation>,
    Option<Vec<u8>>,
))
    ensures
        locations_below(found.0@, home_choice(opt_bytes(found.1), opt_bytes(env_home)), macos),
{
    let system_home = system_home_dir();
    let home = resolve_home(clone_home(&system_home), env_home);
    let locs = scan_locations(home.as_slice(), macos);
    (locs, system_home)
}

fn clone_home(h: &Option<Vec<u8>>) -> (c: Option<Vec<u8>>)
    ensures
        opt_bytes(c) == opt_bytes(*h),
{
    match h {
        Some(v) => {
            let mut c: Vec<u8> = Vec::new();
            push_bytes(&mut c, v.as_slice());
            Some(c)
        },
        None => None,
    }
}

} // verus!
