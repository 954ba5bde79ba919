//! Which entries of a cache directory are offered for cleaning, under which
//! name, and how sizes add up.

use vstd::prelude::*;
use crate::text::{
    chars_of, push_replaced, replace_all, same_text, skip_leading_copies, starts_with,
    strip_leading_copies, text_starts_with,
};

verus! {

/// A specific item found within a cache directory.
#[derive(Clone)]
pub struct SubItem {
    /// Unique identifier key for the category (e.g. "hf", "ollama").
    pub key: String,
    /// Category name of the item (e.g. Hugging Face Cache).
    pub category: String,
    /// Human-readable name of the item.
    pub name: String,
    /// Path to the item on disk, as the bytes of its platform encoding.
    pub path: Vec<u8>,
    /// Size of the item in bytes.
    pub size: u64,
}

/// The text of a `SubItem`.
pub struct SubItemView {
    pub key: Seq<char>,
    pub category: Seq<char>,
    pub name: Seq<char>,
    pub path: Seq<u8>,
    pub size: u64,
}

impl View for SubItem {
    type V = SubItemView;

    open spec fn view(&self) -> SubItemView {
        SubItemView {
            key: self.key@,
            category: self.category@,
            name: self.name@,
            path: self.path@,
            size: self.size,
        }
    }
}

/// One entry of a cache directory as the disk shows it: its file name (for a
/// recursive listing, its path below the cache directory), its full path,
/// whether it is a regular file, and its size as measured for the cache it
/// belongs to (see `SizeMeasure`). The path is held as the bytes of its
/// platform encoding, the name as text.
pub struct DirEntryInfo {
    pub name: String,
    pub path: Vec<u8>,
    pub is_file: bool,
    pub size: u64,
}

/// How the entries of a cache directory are found and which are offered.
#[derive(PartialEq, Eq, Structural, Clone, Copy)]
pub enum ScanStrategy {
    /// Hugging Face hub: the direct children named `models--<org>--<model>`.
    ModelDirectories,
    /// Ollama: every file below the directory, at any depth, is a manifest.
    ManifestFiles,
    /// PyTorch checkpoints: the direct children that are files.
    TopLevelFiles,
    /// Pip and Cursor: every direct child.
    AllChildren,
    /// Any other key: nothing is offered.
    Nothing,
}

/// How the size of an offered entry is measured.
#[derive(PartialEq, Eq, Structural, Clone, Copy)]
pub enum SizeMeasure {
    /// The total size of the files below it (its own size for a file).
    FolderSize,
    /// The length of the file.
    FileLength,
    /// The sizes its manifest text declares (`manifest::manifest_text_size`).
    ManifestSize,
}

/// The prefix of Hugging Face model directories.
pub open spec fn model_prefix() -> Seq<char> {
    "models--"@
}

/// The strategy for the cache with key `key`.
pub open spec fn strategy_for(key: Seq<char>) -> ScanStrategy {
    if key == "hf"@ {
        ScanStrategy::ModelDirectories
    } else if key == "ollama"@ {
        ScanStrategy::ManifestFiles
    } else if key == "torch"@ {
        ScanStrategy::TopLevelFiles
    } else if key == "cursor"@ || key == "pip"@ {
        ScanStrategy::AllChildren
    } else {
        ScanStrategy::Nothing
    }
}

/// The strategy for the cache with key `key`.
pub fn scan_strategy(key: &str) -> (s: ScanStrategy)
    ensures
        s == strategy_for(key@),
        key@ == "hf"@ ==> s == ScanStrategy::ModelDirectories,
        key@ == "ollama"@ ==> s == ScanStrategy::ManifestFiles,
        key@ == "torch"@ ==> s == ScanStrategy::TopLevelFiles,
        key@ == "pip"@ ==> s == ScanStrategy::AllChildren,
        key@ == "cursor"@ ==> s == ScanStrategy::AllChildren,
        key@ != "hf"@ && key@ != "ollama"@ && key@ != "torch"@ && key@ != "pip"@ && key@
            != "cursor"@ ==> s == ScanStrategy::Nothing,
{
    proof {
        reveal_strlit("hf");
        reveal_strlit("ollama");
        reveal_strlit("torch");
        reveal_strlit("pip");
        reveal_strlit("cursor");
        assert("hf"@.len() == 2 && "ollama"@.len() == 6 && "torch"@.len() == 5);
        assert("pip"@.len() == 3 && "cursor"@.len() == 6);
        assert("cursor"@[0] != "ollama"@[0]);
    }
    if same_text(key, "hf") {
        ScanStrategy::ModelDirectories
    } else if same_text(key, "ollama") {
        ScanStrategy::ManifestFiles
    } else if same_text(key, "torch") {
        ScanStrategy::TopLevelFiles
    } else if same_text(key, "cursor") || same_text(key, "pip") {
        ScanStrategy::AllChildren
    } else {
        ScanStrategy::Nothing
    }
}

/// How offered entries are measured under `strategy`.
pub open spec fn measure_for_spec(strategy: ScanStrategy) -> SizeMeasure {
    match strategy {
        ScanStrategy::ManifestFiles => SizeMeasure::ManifestSize,
        ScanStrategy::TopLevelFiles => SizeMeasure::FileLength,
        _ => SizeMeasure::FolderSize,
    }
}

/// How offered entries are measured under `strategy`.
pub fn measure_for(strategy: ScanStrategy) -> (m: SizeMeasure)
    ensures
        m == measure_for_spec(strategy),
        strategy == ScanStrategy::ModelDirectories ==> m == SizeMeasure::FolderSize,
        strategy == ScanStrategy::AllChildren ==> m == SizeMeasure::FolderSize,
        strategy == ScanStrategy::Nothing ==> m == SizeMeasure::FolderSize,
        strategy == ScanStrategy::TopLevelFiles ==> m == SizeMeasure::FileLength,
        strategy == ScanStrategy::ManifestFiles ==> m == SizeMeasure::ManifestSize,
{
    match strategy {
        ScanStrategy::ManifestFiles => SizeMeasure::ManifestSize,
        ScanStrategy::TopLevelFiles => SizeMeasure::FileLength,
        _ => SizeMeasure::FolderSize,
    }
}

/// Whether an entry named `name` is offered under `strategy`.
pub open spec fn entry_wanted(strategy: ScanStrategy, name: Seq<char>, is_file: bool) -> bool {
    match strategy {
        ScanStrategy::ModelDirectories => starts_with(name, model_prefix()),
        ScanStrategy::ManifestFiles => is_file,
        ScanStrategy::TopLevelFiles => is_file,
        ScanStrategy::AllChildren => true,
        ScanStrategy::Nothing => false,
    }
}

/// Whether an entry named `name` is offered under `strategy`.
pub fn wants_entry(strategy: ScanStrategy, name: &str, is_file: bool) -> (r: bool)
    ensures
        r == entry_wanted(strategy, name@, is_file),
        strategy == ScanStrategy::ModelDirectories ==> (r <==> starts_with(name@, "models--"@)),
        strategy == ScanStrategy::ManifestFiles ==> (r <==> is_file),
        strategy == ScanStrategy::TopLevelFiles ==> (r <==> is_file),
        strategy == ScanStrategy::AllChildren ==> r,
        strategy == ScanStrategy::Nothing ==> !r,
{
    match strategy {
        ScanStrategy::ModelDirectories => text_starts_with(name, "models--"),
        ScanStrategy::ManifestFiles => is_file,
        ScanStrategy::TopLevelFiles => is_file,
        ScanStrategy::AllChildren => true,
        ScanStrategy::Nothing => false,
    }
}

/// The model name of a Hugging Face model directory: the directory name with
/// the leading `models--` removed (repeatedly) and every `--` turned into `/`,
/// so `models--org--model` reads `org/model`.
pub open spec fn model_name(dir_name: Seq<char>) -> Seq<char> {
    replace_all(strip_leading_copies(dir_name, model_prefix()), "--"@, "/"@)
}

/// The model name of the Hugging Face directory `dir_name`, if it is a model
/// directory (its name starts with `models--`).
pub fn hf_model_name(dir_name: &str) -> (name: Option<String>)
    ensures
        match name {
            Some(n) => starts_with(dir_name@, model_prefix()) && n@ == model_name(dir_name@),
            None => !starts_with(dir_name@, model_prefix()),
        },
{
    if !text_starts_with(dir_name, "models--") {
        return None;
    }
    let chars = chars_of(dir_name);
    let prefix = chars_of("models--");
    let sep = chars_of("--");
    proof {
        reveal_strlit("models--");
        reveal_strlit("--");
    }
    let start = skip_leading_copies(&chars, 0, &prefix);
    let mut out = String::new();
    push_replaced(&mut out, &chars, start, &sep, "/");
    assert(chars@.skip(0) =~= chars@);
    Some(out)
}

/// The name an entry is offered under.
pub open spec fn item_name(strategy: ScanStrategy, name: Seq<char>) -> Seq<char> {
    match strategy {
        ScanStrategy::ModelDirectories => model_name(name),
        _ => name,
    }
}

/// The items offered from `entries` under `strategy`, in the order of the
/// entries.
pub open spec fn offered_items(
    strategy: ScanStrategy,
    key: Seq<char>,
    category: Seq<char>,
    entries: Seq<DirEntryInfo>,
) -> Seq<SubItemView>
    decreases entries.len(),
{
    if entries.len() == 0 {
        Seq::empty()
    } else {
        let rest = offered_items(strategy, key, category, entries.drop_last());
        let e = entries.last();
        if entry_wanted(strategy, e.name@, e.is_file) {
            rest.push(
                SubItemView {
                    key,
                    category,
                    name: item_name(strategy, e.name@),
                    path: e.path@,
                    size: e.size,
                },
            )
        } else {
            rest
        }
    }
}

/// Only the PyTorch checkpoints are measured by file length, only the Ollama
/// manifests by what their manifest declares; every other cache's entries are
/// measured by the total size of the files below them.
pub proof fn lemma_measures(strategy: ScanStrategy)
    ensures
        measure_for_spec(strategy) == SizeMeasure::FileLength <==> strategy
            == ScanStrategy::TopLevelFiles,
        measure_for_spec(strategy) == SizeMeasure::ManifestSize <==> strategy
            == ScanStrategy::ManifestFiles,
        measure_for_spec(strategy) == SizeMeasure::FolderSize <==> (strategy
            != ScanStrategy::TopLevelFiles && strategy != ScanStrategy::ManifestFiles),
{
}

/// Where and how large the offered items are.
pub open spec fn item_places(items: Seq<SubItemView>) -> Seq<(Seq<u8>, u64)> {
    items.map_values(|v: SubItemView| (v.path, v.size))
}

/// Where and how large the listed entries are.
pub open spec fn entry_places(entries: Seq<DirEntryInfo>) -> Seq<(Seq<u8>, u64)> {
    entries.map_values(|e: DirEntryInfo| (e.path@, e.size))
}

/// If `strategy` offers exactly the entries that `keep` selects, then the
/// items offered are those entries, in order, at their paths and sizes, and
/// each carries the cache's key and category.
proof fn lemma_offered_are_kept_entries(
    strategy: ScanStrategy,
    key: Seq<char>,
    category: Seq<char>,
    entries: Seq<DirEntryInfo>,
    keep: spec_fn(DirEntryInfo) -> bool,
)
    requires
        forall|e: DirEntryInfo| #[trigger] keep(e) == entry_wanted(strategy, e.name@, e.is_file),
    ensures
        item_places(offered_items(strategy, key, category, entries)) == entry_places(
            entries.filter(keep),
        ),
        forall|k: int|
            0 <= k < offered_items(strategy, key, category, entries).len() ==> {
                let item = #[trigger] offered_items(strategy, key, category, entries)[k];
                item.key == key && item.category == category
            },
    decreases entries.len(),
{
    reveal(Seq::filter);
    if entries.len() > 0 {
        let init = entries.drop_last();
        let e = entries.last();
        lemma_offered_are_kept_entries(strategy, key, category, init, keep);
        let before = offered_items(strategy, key, category, init);
        let after = offered_items(strategy, key, category, entries);
        if keep(e) {
            assert(entries.filter(keep) == init.filter(keep).push(e));
            assert(item_places(after) =~= item_places(before).push((e.path@, e.size)));
            assert(entry_places(entries.filter(keep)) =~= entry_places(init.filter(keep)).push(
                (e.path@, e.size),
            ));
            assert forall|k: int| 0 <= k < after.len() implies {
                let item = #[trigger] after[k];
                item.key == key && item.category == category
            } by {
                if k < before.len() {
                    assert(after[k] == before[k]);
                }
            }
        } else {
            assert(entries.filter(keep) == init.filter(keep));
        }
    } else {
        assert(item_places(offered_items(strategy, key, category, entries)) =~= Seq::empty());
        assert(entry_places(entries.filter(keep)) =~= Seq::empty());
    }
}

/// Ollama: the items offered are exactly the regular files of the listing, in
/// order; no directory (the manifest library itself included) is ever offered.
pub proof fn lemma_manifest_files_only(
    key: Seq<char>,
    category: Seq<char>,
    entries: Seq<DirEntryInfo>,
)
    ensures
        item_places(offered_items(ScanStrategy::ManifestFiles, key, category, entries))
            == entry_places(entries.filter(|e: DirEntryInfo| e.is_file)),
{
    lemma_offered_are_kept_entries(
        ScanStrategy::ManifestFiles,
        key,
        category,
        entries,
        |e: DirEntryInfo| e.is_file,
    );
}

/// PyTorch: the items offered are exactly the regular files among the
/// children, in order.
pub proof fn lemma_top_level_files_only(
    key: Seq<char>,
    category: Seq<char>,
    entries: Seq<DirEntryInfo>,
)
    ensures
        item_places(offered_items(ScanStrategy::TopLevelFiles, key, category, entries))
            == entry_places(entries.filter(|e: DirEntryInfo| e.is_file)),
{
    lemma_offered_are_kept_entries(
        ScanStrategy::TopLevelFiles,
        key,
        category,
        entries,
        |e: DirEntryInfo| e.is_file,
    );
}

/// Pip and Cursor: every child is offered, in order.
pub proof fn lemma_all_children_offered(
    key: Seq<char>,
    category: Seq<char>,
    entries: Seq<DirEntryInfo>,
)
    ensures
        item_places(offered_items(ScanStrategy::AllChildren, key, category, entries))
            == entry_places(entries),
{
    lemma_offered_are_kept_entries(
        ScanStrategy::AllChildren,
        key,
        category,
        entries,
        |e: DirEntryInfo| true,
    );
    assert(entries.filter(|e: DirEntryInfo| true) == entries) by {
        lemma_filter_all(entries);
    }
}

proof fn lemma_filter_all(entries: Seq<DirEntryInfo>)
    ensures
        entries.filter(|e: DirEntryInfo| true) == entries,
    decreases entries.len(),
{
    reveal(Seq::filter);
    if entries.len() > 0 {
        lemma_filter_all(entries.drop_last());
        assert(entries.drop_last().push(entries.last()) =~= entries);
    }
}

/// Hugging Face: the items offered are exactly the children whose name starts
/// with `models--`, in order.
pub proof fn lemma_model_directories_only(
    key: Seq<char>,
    category: Seq<char>,
    entries: Seq<DirEntryInfo>,
)
    ensures
        item_places(offered_items(ScanStrategy::ModelDirectories, key, category, entries))
            == entry_places(entries.filter(|e: DirEntryInfo| starts_with(e.name@, "models--"@))),
{
    lemma_offered_are_kept_entries(
        ScanStrategy::ModelDirectories,
        key,
        category,
        entries,
        |e: DirEntryInfo| starts_with(e.name@, "models--"@),
    );
}

/// Any other cache offers nothing.
pub proof fn lemma_unknown_offers_nothing(
    key: Seq<char>,
    category: Seq<char>,
    entries: Seq<DirEntryInfo>,
)
    ensures
        offered_items(ScanStrategy::Nothing, key, category, entries).len() == 0,
    decreases entries.len(),
{
    if entries.len() > 0 {
        lemma_unknown_offers_nothing(key, category, entries.drop_last());
    }
}

/// The views of a sequence of items.
pub open spec fn item_views(items: Seq<SubItem>) -> Seq<SubItemView> {
    items.map_values(|i: SubItem| i@)
}

fn copy_text(s: &str) -> (r: String)
    ensures
        r@ == s@,
{
    s.to_owned()
}

fn copy_bytes(s: &[u8]) -> (r: Vec<u8>)
    ensures
        r@ == s@,
{
    let mut r: Vec<u8> = Vec::new();
    crate::locations::push_bytes(&mut r, s);
    r
}

/// Discovers the cleanable items of the cache `key` (display name
/// `category_name`) from the listing `entries` of its directory; a directory
/// that does not exist offers nothing.
pub fn discover_sub_items(
    key: &str,
    category_name: &str,
    base_exists: bool,
    entries: &Vec<DirEntryInfo>,
) -> (items: Vec<SubItem>)
    ensures
        item_views(items@) == (if base_exists {
            offered_items(strategy_for(key@), key@, category_name@, entries@)
        } else {
            Seq::empty()
        }),
{
    let mut items: Vec<SubItem> = Vec::new();
    if !base_exists {
        assert(item_views(items@) =~= Seq::<SubItemView>::empty());
        return items;
    }
    let strategy = scan_strategy(key);
    let mut i: usize = 0;
    while i < entries.len()
        invariant
            i <= entries.len(),
            strategy == strategy_for(key@),
            item_views(items@) == offered_items(
                strategy,
                key@,
                category_name@,
                entries@.take(i as int),
            ),
        decreases entries.len() - i,
    {
        let e = &entries[i];
        assert(entries@.take(i + 1).drop_last() =~= entries@.take(i as int));
        assert(entries@.take(i + 1).last() == entries@[i as int]);
        if wants_entry(strategy, e.name.as_str(), e.is_file) {
            let name = match strategy {
                ScanStrategy::ModelDirectories => match hf_model_name(e.name.as_str()) {
                    Some(n) => n,
                    None => copy_text(e.name.as_str()),
                },
                _ => copy_text(e.name.as_str()),
            };
            let item = SubItem {
                key: copy_text(key),
                category: copy_text(category_name),
                name,
                path: copy_bytes(e.path.as_slice()),
                size: e.size,
            };
            let ghost before = items@;
            items.push(item);
            assert(item_views(items@) =~= item_views(before).push(item@));
        }
        i += 1;
    }
    assert(entries@.take(entries.len() as int) =~= entries@);
    items
}

/// The sum of `sizes`.
pub open spec fn sum_sizes(sizes: Seq<u64>) -> nat
    decreases sizes.len(),
{
    if sizes.len() == 0 {
        0
    } else {
        sum_sizes(sizes.drop_last()) + sizes.last() as nat
    }
}

/// The sum of a prefix is at most the sum of the whole.
pub proof fn lemma_sum_sizes_prefix(sizes: Seq<u64>, n: int)
    requires
        0 <= n <= sizes.len(),
    ensures
        sum_sizes(sizes.take(n)) <= sum_sizes(sizes),
    decreases sizes.len() - n,
{
    if n < sizes.len() {
        lemma_sum_sizes_prefix(sizes, n + 1);
        assert(sizes.take(n + 1).drop_last() =~= sizes.take(n));
    } else {
        assert(sizes.take(n) =~= sizes);
    }
}

/// The total of `sizes`, or nothing when it does not fit in `u64`.
pub fn total_size(sizes: &Vec<u64>) -> (total: Option<u64>)
    ensures
        match total {
            Some(t) => t == sum_sizes(sizes@),
            None => sum_sizes(sizes@) > u64::MAX,
        },
{
    let mut total: u64 = 0;
    let mut i: usize = 0;
    while i < sizes.len()
        invariant
            i <= sizes.len(),
            total == sum_sizes(sizes@.take(i as int)),
        decreases sizes.len() - i,
    {
        assert(sizes@.take(i + 1).drop_last() =~= sizes@.take(i as int));
        match total.checked_add(sizes[i]) {
            Some(t) => total = t,
            None => {
                proof {
                    lemma_sum_sizes_prefix(sizes@, i + 1);
                }
                return None;
            },
        }
        i += 1;
    }
    assert(sizes@.take(sizes.len() as int) =~= sizes@);
    Some(total)
}

} // verus!
