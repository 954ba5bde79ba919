//! The command line: what each command asks for, and the wording that changes
//! with a dry run.

use vstd::prelude::*;
use crate::locations::CacheLocation;
use crate::text::same_text;

verus! {

/// The parsed command line.
pub struct Cli {
    pub command: Option<Commands>,
}

/// The supported operations.
pub enum Commands {
    /// Scan cache directories and calculate sizes.
    Scan,
    /// Clean cache files with interactive sub-item selection.
    Clean {
        /// Optional target to clean (all, hf, ollama, pip, torch, cursor, or a
        /// custom directory path).
        target: Option<String>,
        /// Do not delete any files, just print what would be deleted.
        dry_run: bool,
    },
}

/// What a command line asks the program to do.
pub enum Action {
    /// Scan and report every location; with the hint on how to get help when
    /// no command was given.
    Scan { usage_hint: bool },
    /// Offer the items of every existing location for selection and removal.
    CleanDiscovered { dry_run: bool },
    /// Clean every existing, non-empty location wholesale, after confirmation.
    CleanAll { dry_run: bool },
    /// Offer the items of the location at `index` for selection and removal.
    CleanLocation { index: usize, dry_run: bool },
    /// Clean a directory that is no known location, after confirmation.
    CleanPath { path: String, dry_run: bool },
}

/// Whether `action` asks the user for a confirmation before it removes
/// anything: every cleaning action does (`clean all` and a custom path before
/// any removal, the item lists after the selection); a scan removes nothing.
pub open spec fn asks_before_removing(action: Action) -> bool {
    !(action is Scan)
}

/// Whether `action` asks the user for a confirmation before it removes anything.
pub fn needs_confirmation(action: &Action) -> (r: bool)
    ensures
        r == asks_before_removing(*action),
        r <==> !(action is Scan),
{
    match action {
        Action::Scan { .. } => false,
        _ => true,
    }
}

/// Every cleaning action asks before removing anything, whether or not it is
/// a dry run; a scan never asks.
pub proof fn lemma_confirmation_ignores_dry_run(
    dry_run: bool,
    index: usize,
    path: String,
    usage_hint: bool,
)
    ensures
        asks_before_removing(Action::CleanAll { dry_run }),
        asks_before_removing(Action::CleanDiscovered { dry_run }),
        asks_before_removing(Action::CleanLocation { index, dry_run }),
        asks_before_removing(Action::CleanPath { path, dry_run }),
        !asks_before_removing(Action::Scan { usage_hint }),
{
}

/// `i` is the position of the first location whose key is `target`.
pub open spec fn is_first_with_key(locs: Seq<CacheLocation>, target: Seq<char>, i: int) -> bool {
    &&& 0 <= i < locs.len()
    &&& locs[i].key@ == target
    &&& forall|j: int| 0 <= j < i ==> locs[j].key@ != target
}

/// The first location whose key is `target`, if any.
pub open spec fn first_with_key(locs: Seq<CacheLocation>, target: Seq<char>, from: int) -> Option<
    int,
>
    decreases locs.len() - from,
{
    if from < 0 || from >= locs.len() {
        None
    } else if locs[from].key@ == target {
        Some(from)
    } else {
        first_with_key(locs, target, from + 1)
    }
}

/// The search for a key finds the first location that has it, wherever it
/// stands, and finds nothing when no location has it.
pub proof fn lemma_first_with_key(locs: Seq<CacheLocation>, target: Seq<char>, from: int)
    requires
        0 <= from <= locs.len(),
    ensures
        forall|i: int|
            from <= i < locs.len() && locs[i].key@ == target && (forall|j: int|
                from <= j < i ==> locs[j].key@ != target) ==> first_with_key(locs, target, from)
                == Some(i),
        (forall|j: int| from <= j < locs.len() ==> locs[j].key@ != target) ==> first_with_key(
            locs,
            target,
            from,
        ) is None,
    decreases locs.len() - from,
{
    if from < locs.len() {
        lemma_first_with_key(locs, target, from + 1);
        assert forall|i: int|
            from <= i < locs.len() && locs[i].key@ == target && (forall|j: int|
                from <= j < i ==> locs[j].key@ != target) implies first_with_key(
            locs,
            target,
            from,
        ) == Some(i) by {
            if i > from {
                assert(locs[from].key@ != target);
            }
        }
    }
}

/// Dispatches a command line against the known locations: no command scans
/// (with a hint), `scan` scans, `clean` alone offers every location's items,
/// `clean all` cleans every location, `clean <key>` offers the items of the
/// location with that key, and any other `clean <target>` names a directory.
pub fn plan(cli: &Cli, locations: &Vec<CacheLocation>) -> (action: Action)
    ensures
        match &cli.command {
            None => action == (Action::Scan { usage_hint: true }),
            Some(Commands::Scan) => action == (Action::Scan { usage_hint: false }),
            Some(Commands::Clean { target: None, dry_run }) => action == (Action::CleanDiscovered {
                dry_run: *dry_run,
            }),
            Some(Commands::Clean { target: Some(t), dry_run }) => if t@ == "all"@ {
                action == (Action::CleanAll { dry_run: *dry_run })
            } else {
                match first_with_key(locations@, t@, 0) {
                    Some(i) => action == (Action::CleanLocation {
                        index: i as usize,
                        dry_run: *dry_run,
                    }),
                    None => action matches Action::CleanPath { path, dry_run: d } && path@ == t@
                        && d == *dry_run,
                }
            },
        },
        match &cli.command {
            Some(Commands::Clean { target: Some(t), dry_run }) => {
                &&& t@ != "all"@ ==> forall|i: int|
                    is_first_with_key(locations@, t@, i) ==> action == (Action::CleanLocation {
                        index: i as usize,
                        dry_run: *dry_run,
                    })
                &&& (t@ != "all"@ && forall|i: int|
                    0 <= i < locations@.len() ==> locations@[i].key@ != t@) ==> action is CleanPath
            },
            _ => true,
        },
{
    match &cli.command {
        None => Action::Scan { usage_hint: true },
        Some(Commands::Scan) => Action::Scan { usage_hint: false },
        Some(Commands::Clean { target: None, dry_run }) => Action::CleanDiscovered {
            dry_run: *dry_run,
        },
        Some(Commands::Clean { target: Some(t), dry_run }) => {
            proof {
                lemma_first_with_key(locations@, t@, 0);
            }
            if same_text(t.as_str(), "all") {
                return Action::CleanAll { dry_run: *dry_run };
            }
            let mut i: usize = 0;
            #[verifier::loop_isolation(false)]
            while i < locations.len()
                invariant
                    i <= locations.len(),
                    first_with_key(locations@, t@, 0) == first_with_key(locations@, t@, i as int),
                decreases locations.len() - i,
            {
                if same_text(locations[i].key, t.as_str()) {
                    assert(first_with_key(locations@, t@, i as int) == Some(i as int));
                    return Action::CleanLocation { index: i, dry_run: *dry_run };
                }
                i += 1;
            }
            Action::CleanPath { path: t.clone(), dry_run: *dry_run }
        },
    }
}

/// Whether `clean all` removes a location: only one that exists and holds
/// something.
pub fn worth_cleaning(exists: bool, size: u64) -> (r: bool)
    ensures
        r == (exists && size > 0),
{
    exists && size > 0
}

/// The lead of the scanning message.
pub fn scan_label(dry_run: bool) -> (s: &'static str)
    ensures
        s@ == (if dry_run {
            "[DRY RUN] Scanning"@
        } else {
            "Scanning"@
        }),
{
    if dry_run {
        "[DRY RUN] Scanning"
    } else {
        "Scanning"
    }
}

/// The prefix of a confirmation question.
pub fn prompt_prefix(dry_run: bool) -> (s: &'static str)
    ensures
        s@ == (if dry_run {
            "[DRY RUN] "@
        } else {
            ""@
        }),
{
    if dry_run {
        "[DRY RUN] "
    } else {
        ""
    }
}

/// The heading over the removal of selected items.
pub fn clean_items_heading(dry_run: bool) -> (s: &'static str)
    ensures
        s@ == (if dry_run {
            "[DRY RUN] Would clean..."@
        } else {
            "Cleaning..."@
        }),
{
    if dry_run {
        "[DRY RUN] Would clean..."
    } else {
        "Cleaning..."
    }
}

/// The heading over the removal of whole locations.
pub fn clean_all_heading(dry_run: bool) -> (s: &'static str)
    ensures
        s@ == (if dry_run {
            "[DRY RUN] Would clean"@
        } else {
            "Cleaning"@
        }),
{
    if dry_run {
        "[DRY RUN] Would clean"
    } else {
        "Cleaning"
    }
}

/// The word after the amount of space freed.
pub fn freed_label(dry_run: bool) -> (s: &'static str)
    ensures
        s@ == (if dry_run {
            "Would free"@
        } else {
            "freed!"@
        }),
{
    if dry_run {
        "Would free"
    } else {
        "freed!"
    }
}

} // verus!
