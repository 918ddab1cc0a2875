//! Where files lie, and how they are written.

use vstd::prelude::*;

use crate::text;
use crate::words;

verus! {

pub const ACCOUNTS_FILE: &'static str = "accounts.json";

pub const SETTINGS_FILE: &'static str = "settings.json";

pub const STORE_LOCK_FILE: &'static str = ".store.lock";

// ---------------------------------------------------------------------------
// Places
// ---------------------------------------------------------------------------

/// Where a path starts
#[derive(Debug)]
pub enum Base {
    /// The home directory of the user
    Home,
    /// This directory
    Directory(String),
}

/// A place: where its path starts, and the parts that follow
#[derive(Debug)]
pub struct Place {
    pub base: Base,
    pub parts: Vec<String>,
}

/// The user has no home directory
#[derive(Debug, Clone, Copy, PartialEq, Eq, Structural)]
pub struct NoHome;

impl NoHome {
    pub fn message(&self) -> (r: String)
        ensures
            r@ == "Could not find home directory"@,
    {
        "Could not find home directory".to_string()
    }
}

/// The place below the home directory with the given parts.
pub open spec fn is_below_home(place: Place, parts: Seq<Seq<char>>) -> bool {
    place.base is Home && text::texts(place.parts@) == parts
}

fn one_part(part: &str) -> (r: Vec<String>)
    ensures
        text::texts(r@) == seq![part@],
{
    let mut r: Vec<String> = Vec::new();
    r.push(part.to_string());
    assert(text::texts(r@) =~= seq![part@]);
    r
}

fn add_part(place: Place, part: &str) -> (r: Place)
    ensures
        r.base == place.base,
        text::texts(r.parts@) == text::texts(place.parts@).push(part@),
{
    let mut place = place;
    let part = part.to_string();
    proof {
        words::lemma_texts_push(place.parts@, part);
    }
    place.parts.push(part);
    place
}

/// A place below the home directory, which there is exactly where the user has one.
pub open spec fn is_place_of_user(
    r: Result<Place, NoHome>,
    has_home: bool,
    parts: Seq<Seq<char>>,
) -> bool {
    match r {
        Ok(place) => has_home && is_below_home(place, parts),
        Err(_) => !has_home,
    }
}

/// The directory with the configuration of this application.
pub open spec fn is_config_dir(r: Result<Place, NoHome>, has_home: bool) -> bool {
    is_place_of_user(r, has_home, seq![".codex-switcher"@])
}

/// The file with the accounts.
pub open spec fn is_accounts_file(r: Result<Place, NoHome>, has_home: bool) -> bool {
    is_place_of_user(r, has_home, seq![".codex-switcher"@, ACCOUNTS_FILE@])
}

/// The file with the settings.
pub open spec fn is_settings_file(r: Result<Place, NoHome>, has_home: bool) -> bool {
    is_place_of_user(r, has_home, seq![".codex-switcher"@, SETTINGS_FILE@])
}

/// The directory of Codex.
pub open spec fn is_codex_home(
    r: Result<Place, NoHome>,
    codex_home: Option<String>,
    has_home: bool,
) -> bool {
    match codex_home {
        Some(dir) => r matches Ok(place) && place.base == Base::Directory(dir) && place.parts@.len()
            == 0,
        None => is_place_of_user(r, has_home, seq![".codex"@]),
    }
}

/// The auth.json of Codex.
pub open spec fn is_codex_auth_file(
    r: Result<Place, NoHome>,
    codex_home: Option<String>,
    has_home: bool,
) -> bool {
    match codex_home {
        Some(dir) => r matches Ok(place) && place.base == Base::Directory(dir) && text::texts(
            place.parts@,
        ) == seq!["auth.json"@],
        None => is_place_of_user(r, has_home, seq![".codex"@, "auth.json"@]),
    }
}

/// The directory with the configuration of this application.
pub fn get_config_dir(has_home: bool) -> (r: Result<Place, NoHome>)
    ensures
        is_config_dir(r, has_home),
{
    if has_home {
        Ok(Place { base: Base::Home, parts: one_part(".codex-switcher") })
    } else {
        Err(NoHome)
    }
}

/// The file with the accounts.
pub fn get_accounts_file(has_home: bool) -> (r: Result<Place, NoHome>)
    ensures
        is_accounts_file(r, has_home),
{
    match get_config_dir(has_home) {
        Ok(dir) => {
            let place = add_part(dir, ACCOUNTS_FILE);
            assert(text::texts(place.parts@) =~= seq![".codex-switcher"@, ACCOUNTS_FILE@]);
            Ok(place)
        },
        Err(error) => Err(error),
    }
}

/// The file with the settings.
pub fn get_settings_file(has_home: bool) -> (r: Result<Place, NoHome>)
    ensures
        is_settings_file(r, has_home),
{
    match get_config_dir(has_home) {
        Ok(dir) => {
            let place = add_part(dir, SETTINGS_FILE);
            assert(text::texts(place.parts@) =~= seq![".codex-switcher"@, SETTINGS_FILE@]);
            Ok(place)
        },
        Err(error) => Err(error),
    }
}

/// The directory of Codex: the one that the variable `CODEX_HOME` names, or else one
/// below the home directory.
pub fn get_codex_home(codex_home: Option<String>, has_home: bool) -> (r: Result<Place, NoHome>)
    ensures
        is_codex_home(r, codex_home, has_home),
{
    match codex_home {
        Some(dir) => Ok(Place { base: Base::Directory(dir), parts: Vec::new() }),
        None => {
            if has_home {
                Ok(Place { base: Base::Home, parts: one_part(".codex") })
            } else {
                Err(NoHome)
            }
        },
    }
}

/// The auth.json of Codex.
pub fn get_codex_auth_file(codex_home: Option<String>, has_home: bool) -> (r: Result<
    Place,
    NoHome,
>)
    ensures
        is_codex_auth_file(r, codex_home, has_home),
{
    let ghost given = codex_home;
    match get_codex_home(codex_home, has_home) {
        Ok(dir) => {
            let ghost before = text::texts(dir.parts@);
            let place = add_part(dir, "auth.json");
            proof {
                if given is Some {
                    assert(before =~= Seq::<Seq<char>>::empty());
                    assert(text::texts(place.parts@) =~= seq!["auth.json"@]);
                } else {
                    assert(text::texts(place.parts@) =~= seq![".codex"@, "auth.json"@]);
                }
            }
            Ok(place)
        },
        Err(error) => Err(error),
    }
}

// ---------------------------------------------------------------------------
// Temporary files
// ---------------------------------------------------------------------------

/// The file name has an extension: a dot that is not its first character.
pub open spec fn has_extension(name: Seq<char>) -> bool {
    match words::rsplit_once_of(name, '.') {
        Some((stem, extension)) => stem.len() > 0,
        None => false,
    }
}

/// The name of the temporary file that is written in place of `name`.
pub open spec fn tmp_name(name: Seq<char>, id: Seq<char>) -> Seq<char> {
    if has_extension(name) {
        name + ".tmp."@ + id
    } else {
        name + ".tmp.tmp."@ + id
    }
}

/// A temporary file that was left behind by a write to `name`.
pub open spec fn is_leftover(entry: Seq<char>, name: Seq<char>) -> bool {
    text::starts_with_of(entry, name + ".tmp."@)
}

/// The name of the temporary file that is written in place of `name`, where `id` is
/// new.
pub fn tmp_file_name(name: &str, id: &str) -> (r: String)
    ensures
        r@ == tmp_name(name@, id@),
{
    let extended = match words::rsplit_once(name, '.') {
        Some((stem, _)) => !stem.as_str().is_empty(),
        None => false,
    };
    let start = if extended {
        text::joined(name, ".tmp.")
    } else {
        text::joined(name, ".tmp.tmp.")
    };
    text::joined(start.as_str(), id)
}

/// Whether a directory entry is a temporary file that was left behind by a write to
/// `name`.
pub fn is_stale_tmp_file(entry: &str, name: &str) -> (r: bool)
    ensures
        r == is_leftover(entry@, name@),
{
    let prefix = text::joined(name, ".tmp.");
    text::starts_with_text(entry, prefix.as_str())
}

/// Whatever a crashed write leaves behind is found by the next one.
pub proof fn law_leftovers_are_found(name: Seq<char>, id: Seq<char>)
    ensures
        is_leftover(tmp_name(name, id), name),
{
    reveal_strlit(".tmp.");
    reveal_strlit(".tmp.tmp.");
    let prefix = name + ".tmp."@;
    assert(tmp_name(name, id).subrange(0, prefix.len() as int) =~= prefix);
}

/// The file itself is never taken for something that was left behind, nor is a file
/// whose name does not start with that of the file.
pub proof fn law_other_files_are_kept(entry: Seq<char>, name: Seq<char>)
    requires
        entry == name || !text::starts_with_of(entry, name),
    ensures
        !is_leftover(entry, name),
{
    reveal_strlit(".tmp.");
    let prefix = name + ".tmp."@;
    if is_leftover(entry, name) {
        assert(entry.subrange(0, prefix.len() as int) == prefix);
        assert(entry.subrange(0, name.len() as int) =~= name) by {
            assert forall|i: int| 0 <= i < name.len() implies entry[i] == name[i] by {
                assert(entry.subrange(0, prefix.len() as int)[i] == entry[i]);
                assert(prefix[i] == name[i]);
            }
        }
        assert(text::occurs_at(entry, name, 0));
    }
}

// ---------------------------------------------------------------------------
// Replacing files
// ---------------------------------------------------------------------------

/// How often a file is put in place at most, on a system where that can fail for a
/// moment.
pub const RENAME_ATTEMPTS: u32 = 5;

/// How long to wait, in milliseconds, after so many failures.
pub open spec fn rename_wait(failures: u32) -> Option<u64> {
    if failures < RENAME_ATTEMPTS {
        Some(20u64)
    } else {
        None
    }
}

/// How long to wait, in milliseconds, before a file is put in place once more, after
/// so many failures; `None` where it is given up.
pub fn rename_replacing(failures: u32) -> (r: Option<u64>)
    ensures
        r == rename_wait(failures),
{
    if failures < RENAME_ATTEMPTS {
        Some(20)
    } else {
        None
    }
}

// ---------------------------------------------------------------------------
// What holds of places and files
// ---------------------------------------------------------------------------

/// The files of this application lie side by side in one directory below the home
/// directory, and there is none of them without a home directory.
pub proof fn law_own_files_lie_below_home(
    dir: Result<Place, NoHome>,
    accounts: Result<Place, NoHome>,
    settings: Result<Place, NoHome>,
    has_home: bool,
)
    requires
        is_config_dir(dir, has_home),
        is_accounts_file(accounts, has_home),
        is_settings_file(settings, has_home),
    ensures
        dir is Ok <==> has_home,
        accounts is Ok <==> has_home,
        settings is Ok <==> has_home,
        has_home ==> {
            let parts = text::texts(dir->Ok_0.parts@);
            &&& dir->Ok_0.base is Home && accounts->Ok_0.base is Home
                && settings->Ok_0.base is Home
            &&& parts == seq![".codex-switcher"@]
            &&& text::texts(accounts->Ok_0.parts@) == parts + seq!["accounts.json"@]
            &&& text::texts(settings->Ok_0.parts@) == parts + seq!["settings.json"@]
        },
{
    if has_home {
        let parts = seq![".codex-switcher"@];
        assert(seq![".codex-switcher"@, "accounts.json"@] =~= parts + seq!["accounts.json"@]);
        assert(seq![".codex-switcher"@, "settings.json"@] =~= parts + seq!["settings.json"@]);
    }
}

/// The auth.json lies in the directory of Codex. This is the one that was named, as it
/// stands, and needs no home directory; only where none was named it lies below the home
/// directory.
pub proof fn law_auth_file_lies_in_codex_home(
    dir: Result<Place, NoHome>,
    auth: Result<Place, NoHome>,
    codex_home: Option<String>,
    has_home: bool,
)
    requires
        is_codex_home(dir, codex_home, has_home),
        is_codex_auth_file(auth, codex_home, has_home),
    ensures
        dir is Ok <==> codex_home is Some || has_home,
        auth is Ok <==> codex_home is Some || has_home,
        dir is Ok ==> {
            let parts = text::texts(dir->Ok_0.parts@);
            &&& text::texts(auth->Ok_0.parts@) == parts + seq!["auth.json"@]
            &&& codex_home matches Some(named) ==> {
                &&& dir->Ok_0.base == Base::Directory(named)
                &&& auth->Ok_0.base == Base::Directory(named)
                &&& parts.len() == 0
            }
            &&& codex_home is None ==> {
                &&& dir->Ok_0.base is Home
                &&& auth->Ok_0.base is Home
                &&& parts == seq![".codex"@]
            }
        },
{
    if dir is Ok {
        let parts = text::texts(dir->Ok_0.parts@);
        assert(text::texts(auth->Ok_0.parts@) =~= parts + seq!["auth.json"@]);
    }
}

/// A temporary file is named after the file it is for and ends with its identifier; two
/// writes with identifiers of their own never share one.
pub proof fn law_temporary_files_are_told_apart(name: Seq<char>, id: Seq<char>, other: Seq<char>)
    ensures
        tmp_name(name, id).take(name.len() as int) == name,
        tmp_name(name, id).skip(tmp_name(name, id).len() - id.len()) == id,
        tmp_name(name, id) != name,
        tmp_name(name, id) == tmp_name(name, other) ==> id == other,
{
    reveal_strlit(".tmp.");
    reveal_strlit(".tmp.tmp.");
    let between = if has_extension(name) {
        ".tmp."@
    } else {
        ".tmp.tmp."@
    };
    let a = tmp_name(name, id);
    let b = tmp_name(name, other);
    assert(a == name + between + id);
    assert(b == name + between + other);
    assert(a.take(name.len() as int) =~= name);
    assert(a.skip(a.len() - id.len()) =~= id);
    assert(a.len() > name.len());
    if a == b {
        assert(a.skip((name + between).len() as int) =~= id);
        assert(b.skip((name + between).len() as int) =~= other);
    }
}

/// A directory entry is taken for a left-over of a file exactly where its name is that of
/// the file, `.tmp.` and anything.
pub proof fn law_leftovers_are_named_after_the_file(entry: Seq<char>, name: Seq<char>)
    ensures
        is_leftover(entry, name) <==> exists|rest: Seq<char>| #[trigger]
            (name + ".tmp."@ + rest) == entry,
{
    let start = name + ".tmp."@;
    if is_leftover(entry, name) {
        let rest = entry.skip(start.len() as int);
        assert(name + ".tmp."@ + rest =~= entry);
    }
    if exists|rest: Seq<char>| #[trigger] (name + ".tmp."@ + rest) == entry {
        let rest = choose|rest: Seq<char>| #[trigger] (name + ".tmp."@ + rest) == entry;
        assert(entry.subrange(0, start.len() as int) =~= start);
    }
}

/// After fewer than five failures a file is put in place once more, a fiftieth of a second
/// later; after five of them it is given up.
pub proof fn law_renaming_is_given_up(failures: u32)
    ensures
        failures < 5 ==> rename_wait(failures) == Some(20u64),
        failures >= 5 ==> rename_wait(failures) is None,
{
}

} // verus!
