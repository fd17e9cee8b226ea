//! Package and software inventory: what counts as an installed package in the
//! directories and registry keys that package managers keep, and the breakdown
//! line for dashboards. Listing the directories and keys happens outside the
//! library; these functions take what was listed.
use vstd::prelude::*;
use crate::text::{
    digit_char,
    str_chars, string_from_chars, extend_with, extend_with_str, push_decimal, decimal, join,
    starts_with, ends_with, starts_with_str, ends_with_str, join_chars,
};

verus! {

/// The package managers, in the order of the breakdown.
pub open spec fn package_manager_names() -> Seq<Seq<char>> {
    seq![
        "native"@, "winget"@, "ms-store"@, "scoop"@, "choco"@, "steam"@, "npm"@, "dpkg"@,
        "pacman"@, "flatpak"@, "snap"@,
    ]
}

/// The number of package managers.
pub const PACKAGE_MANAGER_COUNT: usize = 11;

/// The name of the `i`-th package manager of the breakdown.
pub fn package_manager_name(i: usize) -> (n: &'static str)
    requires
        i < PACKAGE_MANAGER_COUNT,
    ensures
        n@ == package_manager_names()[i as int],
{
    if i == 0 {
        "native"
    } else if i == 1 {
        "winget"
    } else if i == 2 {
        "ms-store"
    } else if i == 3 {
        "scoop"
    } else if i == 4 {
        "choco"
    } else if i == 5 {
        "steam"
    } else if i == 6 {
        "npm"
    } else if i == 7 {
        "dpkg"
    } else if i == 8 {
        "pacman"
    } else if i == 9 {
        "flatpak"
    } else {
        "snap"
    }
}

/// The parts of the breakdown: "<count> <name>" for each manager with at
/// least one package, in order.
pub open spec fn breakdown_parts(entries: Seq<(Seq<char>, nat)>) -> Seq<Seq<char>>
    decreases entries.len(),
{
    if entries.len() == 0 {
        Seq::empty()
    } else {
        let prev = breakdown_parts(entries.drop_last());
        let (name, count) = entries.last();
        if count > 0 {
            prev.push(decimal(count) + " "@ + name)
        } else {
            prev
        }
    }
}

/// The breakdown line: its parts joined with ", ", or "0 apps".
pub open spec fn breakdown_text(entries: Seq<(Seq<char>, nat)>) -> Seq<char> {
    let parts = breakdown_parts(entries);
    if parts.len() == 0 {
        "0 apps"@
    } else {
        join(parts, ", "@)
    }
}

proof fn lemma_decimal_leading(n: nat)
    requires
        n >= 1,
    ensures
        decimal(n).len() > 0,
        decimal(n)[0] != '0',
    decreases n,
{
    if n >= 10 {
        lemma_decimal_leading(n / 10);
        assert(decimal(n) == decimal(n / 10).push(digit_char(n % 10)));
    }
}

proof fn lemma_join_first(parts: Seq<Seq<char>>, sep: Seq<char>)
    requires
        parts.len() > 0,
        parts[0].len() > 0,
    ensures
        join(parts, sep).len() > 0,
        join(parts, sep)[0] == parts[0][0],
    decreases parts.len(),
{
    if parts.len() > 1 {
        assert(parts.drop_last()[0] == parts[0]);
        lemma_join_first(parts.drop_last(), sep);
    }
}

/// The breakdown's parts are exactly the managers with at least one package,
/// in order, each as "<count> <name>".
pub proof fn lemma_breakdown_parts(entries: Seq<(Seq<char>, nat)>)
    ensures
        breakdown_parts(entries) == entries.filter(|e: (Seq<char>, nat)| e.1 > 0).map_values(
            |e: (Seq<char>, nat)| decimal(e.1) + " "@ + e.0,
        ),
    decreases entries.len(),
{
    reveal(Seq::filter);
    if entries.len() > 0 {
        lemma_breakdown_parts(entries.drop_last());
    }
}

/// The breakdown is "0 apps" exactly when no manager has a package.
pub proof fn lemma_breakdown_empty(entries: Seq<(Seq<char>, nat)>)
    ensures
        (breakdown_text(entries) == "0 apps"@) <==> (forall|i: int| 0 <= i < entries.len() ==> entries[i].1 == 0),
    decreases entries.len(),
{
    reveal_strlit("0 apps");
    lemma_breakdown_parts(entries);
    let pos = entries.filter(|e: (Seq<char>, nat)| e.1 > 0);
    let parts = breakdown_parts(entries);
    if forall|i: int| 0 <= i < entries.len() ==> entries[i].1 == 0 {
        entries.lemma_all_neg_filter_empty(|e: (Seq<char>, nat)| e.1 > 0);
        assert(pos.len() == 0);
    } else {
        let i = choose|i: int| 0 <= i < entries.len() && entries[i].1 != 0;
        broadcast use vstd::seq_lib::group_filter_ensures;
        assert(pos.contains(entries[i]));
        assert(pos.len() > 0);
        assert(parts[0] == decimal(pos[0].1) + " "@ + pos[0].0);
        lemma_decimal_leading(pos[0].1);
        assert(parts[0][0] == decimal(pos[0].1)[0]);
        lemma_join_first(parts, ", "@);
        assert(breakdown_text(entries)[0] != "0 apps"@[0]);
    }
}

/// The plain values of the counted managers.
pub open spec fn entry_views(v: Seq<(&str, usize)>) -> Seq<(Seq<char>, nat)> {
    v.map_values(|e: (&str, usize)| (e.0@, e.1 as nat))
}

/// The human-readable breakdown of installed packages from each manager's
/// name and count, such as "12 dpkg, 3 flatpak"; "0 apps" when every count is
/// zero.
pub fn breakdown_from(entries: &Vec<(&str, usize)>) -> (s: String)
    ensures
        s@ == breakdown_text(entry_views(entries@)),
{
    let ghost views = entry_views(entries@);
    let mut parts: Vec<Vec<char>> = Vec::new();
    for i in 0..entries.len()
        invariant
            views == entry_views(entries@),
            parts@.map_values(|p: Vec<char>| p@) == breakdown_parts(views.take(i as int)),
    {
        assert(views.take(i + 1).drop_last() == views.take(i as int));
        assert(views.take(i + 1).last() == views[i as int]);
        let (name, count) = entries[i];
        if count > 0 {
            let mut p: Vec<char> = Vec::new();
            push_decimal(&mut p, count as u64);
            extend_with_str(&mut p, " ");
            extend_with_str(&mut p, name);
            let ghost before = parts@;
            parts.push(p);
            assert(parts@.map_values(|p: Vec<char>| p@) == before.map_values(|p: Vec<char>| p@).push(
                parts@.last()@,
            ));
        }
    }
    assert(views.take(entries.len() as int) == views);
    if parts.len() == 0 {
        String::from_str("0 apps")
    } else {
        let joined = join_chars(&parts, ", ");
        string_from_chars(&joined)
    }
}

/// Chocolatey keeps one entry in its `lib` directory that is not a package.
pub fn choco_count(lib_entries: usize) -> (n: usize)
    ensures
        n == (if lib_entries > 0 { lib_entries - 1 } else { 0 }),
{
    lib_entries.saturating_sub(1)
}

/// Whether a file name is a Steam app manifest: "appmanifest_<id>.acf".
pub open spec fn is_app_manifest(name: Seq<char>) -> bool {
    starts_with(name, "appmanifest_"@) && ends_with(name, ".acf"@)
}

/// The number of app manifests among file names.
pub open spec fn manifest_count(names: Seq<Seq<char>>) -> nat
    decreases names.len(),
{
    if names.len() == 0 {
        0
    } else {
        manifest_count(names.drop_last()) + if is_app_manifest(names.last()) { 1nat } else { 0nat }
    }
}

/// Steam games on Linux: the number of app manifests in the first of the
/// library directories (absent when it could not be listed) that holds any.
pub open spec fn steam_library_count(dirs: Seq<Option<Seq<Seq<char>>>>) -> nat
    decreases dirs.len(),
{
    if dirs.len() == 0 {
        0
    } else {
        match dirs[0] {
            Some(names) => if manifest_count(names) > 0 {
                manifest_count(names)
            } else {
                steam_library_count(dirs.drop_first())
            },
            None => steam_library_count(dirs.drop_first()),
        }
    }
}

/// The plain values of directory listings.
pub open spec fn listing_views(v: Seq<Option<Vec<String>>>) -> Seq<Option<Seq<Seq<char>>>> {
    v.map_values(
        |d: Option<Vec<String>>|
            match d {
                Some(names) => Some(names@.map_values(|s: String| s@)),
                None => None,
            },
    )
}

/// The number of app manifests among the file names of one directory.
fn count_manifests(names: &Vec<String>) -> (n: usize)
    ensures
        n == manifest_count(names@.map_values(|s: String| s@)),
{
    let ghost views = names@.map_values(|s: String| s@);
    let mut n: usize = 0;
    for i in 0..names.len()
        invariant
            views == names@.map_values(|s: String| s@),
            n == manifest_count(views.take(i as int)),
            n <= i,
    {
        assert(views.take(i + 1).drop_last() == views.take(i as int));
        assert(views.take(i + 1).last() == names@[i as int]@);
        let cs = str_chars(names[i].as_str());
        if starts_with_str(&cs, "appmanifest_") && ends_with_str(&cs, ".acf") {
            n = n + 1;
        }
    }
    assert(views.take(names.len() as int) == views);
    n
}

/// Steam games on Linux from the listings of its library directories, in the
/// order they are looked at.
pub fn steam_count_from_libraries(dirs: &Vec<Option<Vec<String>>>) -> (n: usize)
    ensures
        n == steam_library_count(listing_views(dirs@)),
{
    let ghost views = listing_views(dirs@);
    assert(views.skip(0) == views);
    for i in 0..dirs.len()
        invariant
            views == listing_views(dirs@),
            steam_library_count(views) == steam_library_count(views.skip(i as int)),
    {
        assert(views.skip(i as int).drop_first() == views.skip(i + 1));
        assert(views.skip(i as int)[0] == views[i as int]);
        match &dirs[i] {
            Some(names) => {
                let n = count_manifests(names);
                if n > 0 {
                    return n;
                }
            },
            None => {},
        }
    }
    assert(views.skip(dirs.len() as int) == Seq::<Option<Seq<Seq<char>>>>::empty());
    0
}

/// The number of installed Steam apps on Windows: the app keys whose
/// `Installed` value (absent when it could not be read) is 1.
pub open spec fn installed_count(values: Seq<Option<u32>>) -> nat
    decreases values.len(),
{
    if values.len() == 0 {
        0
    } else {
        installed_count(values.drop_last()) + if values.last() == Some(1u32) { 1nat } else { 0nat }
    }
}

/// The number of installed Steam apps from the `Installed` values of the app keys.
pub fn steam_count_from_registry(installed: &Vec<Option<u32>>) -> (n: usize)
    ensures
        n == installed_count(installed@),
{
    let mut n: usize = 0;
    for i in 0..installed.len()
        invariant
            n == installed_count(installed@.take(i as int)),
            n <= i,
    {
        assert(installed@.take(i + 1).drop_last() == installed@.take(i as int));
        assert(installed@.take(i + 1).last() == installed@[i as int]);
        if installed[i] == Some(1u32) {
            n = n + 1;
        }
    }
    assert(installed@.take(installed.len() as int) == installed@);
    n
}

/// Whether a file name has the extension `ext` (`Path::extension`): it ends
/// with "." and `ext`, and that dot is not its first character.
pub open spec fn has_extension(name: Seq<char>, ext: Seq<char>) -> bool {
    ends_with(name, "."@ + ext) && name.len() > ext.len() + 1 && !ext.contains('.')
}

/// The number of file names with the extension `ext`.
pub open spec fn extension_count(names: Seq<Seq<char>>, ext: Seq<char>) -> nat
    decreases names.len(),
{
    if names.len() == 0 {
        0
    } else {
        extension_count(names.drop_last(), ext) + if has_extension(names.last(), ext) { 1nat } else { 0nat }
    }
}

/// The number of file names with the extension `ext` (such as the `.list`
/// files of dpkg or the `.snap` files of snapd).
pub fn count_with_extension(names: &Vec<String>, ext: &str) -> (n: usize)
    ensures
        n == extension_count(names@.map_values(|s: String| s@), ext@),
{
    let ghost views = names@.map_values(|s: String| s@);
    let e = str_chars(ext);
    let mut dotted: Vec<char> = Vec::new();
    extend_with_str(&mut dotted, ".");
    extend_with(&mut dotted, &e);
    let mut has_dot = false;
    for k in 0..e.len()
        invariant
            has_dot == (exists|j: int| 0 <= j < k && e@[j] == '.'),
    {
        if e[k] == '.' {
            has_dot = true;
        }
    }
    assert(has_dot == e@.contains('.'));
    let mut n: usize = 0;
    for i in 0..names.len()
        invariant
            views == names@.map_values(|s: String| s@),
            e@ == ext@,
            dotted@ == "."@ + ext@,
            has_dot == ext@.contains('.'),
            n == extension_count(views.take(i as int), ext@),
            n <= i,
    {
        assert(views.take(i + 1).drop_last() == views.take(i as int));
        assert(views.take(i + 1).last() == names@[i as int]@);
        let cs = str_chars(names[i].as_str());
        if crate::text::has_suffix(&cs, &dotted) && cs.len() > e.len() && cs.len() - e.len() > 1 && !has_dot {
            n = n + 1;
        }
    }
    assert(views.take(names.len() as int) == views);
    n
}

} // verus!
