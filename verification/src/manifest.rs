//! The dependency sets of a manifest: which packages it declares, under
//! which class, and with what specifier.

use crate::json::{
    json_error_text, json_keys, json_rendering, json_strings, json_text_strings, keys_in,
    member_path, parse_json, render_json, string_in,
};
use vstd::prelude::*;

verus! {

/// The three kinds of dependency that a manifest declares.
#[derive(Clone, Copy, Debug, PartialEq, Eq, Structural)]
pub enum DependencyClass {
    Production,
    Dev,
    Peer,
}

/// What stands for the specifier of a package that the manifest does not
/// declare, and for the latest version where the registry names none.
pub const NOT_FOUND: &'static str = "Version not found";

/// The key of the manifest member that holds the dependencies of a class.
pub open spec fn section_name(class: DependencyClass) -> Seq<char> {
    match class {
        DependencyClass::Production => "dependencies"@,
        DependencyClass::Dev => "devDependencies"@,
        DependencyClass::Peer => "peerDependencies"@,
    }
}

impl DependencyClass {
    /// The class that the two flags of a package stand for: `is_dev` wins
    /// over `is_peer`, and a package with neither is a production dependency.
    pub open spec fn of_flags(is_dev: bool, is_peer: bool) -> DependencyClass {
        if is_dev {
            DependencyClass::Dev
        } else if is_peer {
            DependencyClass::Peer
        } else {
            DependencyClass::Production
        }
    }

    /// The class that the two flags of a package stand for: see `of_flags`.
    pub fn from_flags(is_dev: bool, is_peer: bool) -> (class: DependencyClass)
        ensures
            class == Self::of_flags(is_dev, is_peer),
    {
        if is_dev {
            DependencyClass::Dev
        } else if is_peer {
            DependencyClass::Peer
        } else {
            DependencyClass::Production
        }
    }

    /// The key of the manifest member that holds this class.
    pub fn section(&self) -> (key: &'static str)
        ensures
            key@ == section_name(*self),
    {
        match self {
            DependencyClass::Production => "dependencies",
            DependencyClass::Dev => "devDependencies",
            DependencyClass::Peer => "peerDependencies",
        }
    }
}

/// The dependency set of a class: the packages that the manifest declares
/// under it with a string for a specifier, each with that specifier.
pub open spec fn declared(doc: serde_json::Value, class: DependencyClass) -> Map<
    Seq<char>,
    Seq<char>,
> {
    Map::new(
        |name: Seq<char>| json_strings(doc).contains_key(member_path(section_name(class), name)),
        |name: Seq<char>| json_strings(doc)[member_path(section_name(class), name)],
    )
}

/// The specifier of `name` in a dependency set, or `NOT_FOUND` where the set
/// does not hold it.
pub open spec fn specifier_in(set: Map<Seq<char>, Seq<char>>, name: Seq<char>) -> Seq<char> {
    if set.contains_key(name) {
        set[name]
    } else {
        NOT_FOUND@
    }
}

/// The class of a package, by the name lists that were gathered for the
/// run: development if `dev_names` has it, else peer if `peer_names` has it,
/// else production.
pub open spec fn class_of(
    name: Seq<char>,
    dev_names: Seq<Seq<char>>,
    peer_names: Seq<Seq<char>>,
) -> DependencyClass {
    if dev_names.contains(name) {
        DependencyClass::Dev
    } else if peer_names.contains(name) {
        DependencyClass::Peer
    } else {
        DependencyClass::Production
    }
}

/// Whether `names` holds `name`.
pub fn is_listed(names: &Vec<String>, name: &str) -> (r: bool)
    ensures
        r == names.deep_view().contains(name@),
{
    let mut i: usize = 0;
    while i < names.len()
        invariant
            i <= names.len(),
            forall|j: int| 0 <= j < i ==> names.deep_view()[j] != name@,
        decreases names.len() - i,
    {
        if names[i].as_str().eq(name) {
            assert(names.deep_view()[i as int] == name@);
            return true;
        }
        i += 1;
    }
    false
}

/// The class of a package: see `class_of`.
pub fn classify_package(name: &str, dev_names: &Vec<String>, peer_names: &Vec<String>) -> (class:
    DependencyClass)
    ensures
        class == class_of(name@, dev_names.deep_view(), peer_names.deep_view()),
{
    if is_listed(dev_names, name) {
        DependencyClass::Dev
    } else if is_listed(peer_names, name) {
        DependencyClass::Peer
    } else {
        DependencyClass::Production
    }
}

/// The specifier that the manifest declares for `package` under `class`,
/// if it declares one.
pub fn declared_specifier(doc: &serde_json::Value, class: DependencyClass, package: &str) -> (r:
    Option<String>)
    ensures
        r matches Some(text) ==> declared(*doc, class).contains_key(package@) && text@ == declared(
            *doc,
            class,
        )[package@],
        r is None ==> !declared(*doc, class).contains_key(package@),
{
    string_in(doc, class.section(), package)
}

/// The specifier that the manifest declares for `package`, read from the
/// dependency set of the package's class; `NOT_FOUND` where that set does
/// not declare it.
pub fn get_current_package_version(
    package: &str,
    json_data: &serde_json::Value,
    dev_package_names: &Vec<String>,
    peer_package_names: &Vec<String>,
) -> (current: String)
    ensures
        current@ == specifier_in(
            declared(
                *json_data,
                class_of(package@, dev_package_names.deep_view(), peer_package_names.deep_view()),
            ),
            package@,
        ),
{
    let class = classify_package(package, dev_package_names, peer_package_names);
    match declared_specifier(json_data, class, package) {
        Some(text) => text,
        None => NOT_FOUND.to_owned(),
    }
}

/// The names that the manifest lists under a class, in the order in which
/// the document walks them. A name is listed whatever stands for its
/// specifier.
pub open spec fn listed_names(doc: serde_json::Value, class: DependencyClass) -> Seq<Seq<char>> {
    json_keys(doc, section_name(class))
}

/// The package names of a manifest by class: production always, development
/// and peer only where asked for (empty otherwise). No name comes twice in
/// one list, and every package that a collected class declares is named.
pub fn collect_dependency_names(
    doc: &serde_json::Value,
    include_dev: bool,
    include_peer: bool,
) -> (names: (Vec<String>, Vec<String>, Vec<String>))
    ensures
        names.0.deep_view() == listed_names(*doc, DependencyClass::Production),
        names.1.deep_view() == if include_dev {
            listed_names(*doc, DependencyClass::Dev)
        } else {
            Seq::empty()
        },
        names.2.deep_view() == if include_peer {
            listed_names(*doc, DependencyClass::Peer)
        } else {
            Seq::empty()
        },
        names.0.deep_view().no_duplicates(),
        names.1.deep_view().no_duplicates(),
        names.2.deep_view().no_duplicates(),
        forall|name: Seq<char>| #[trigger]
            declared(*doc, DependencyClass::Production).contains_key(name)
                ==> names.0.deep_view().contains(name),
        include_dev ==> forall|name: Seq<char>| #[trigger]
            declared(*doc, DependencyClass::Dev).contains_key(name)
                ==> names.1.deep_view().contains(name),
        include_peer ==> forall|name: Seq<char>| #[trigger]
            declared(*doc, DependencyClass::Peer).contains_key(name)
                ==> names.2.deep_view().contains(name),
{
    let production = keys_in(doc, DependencyClass::Production.section());
    let dev = if include_dev {
        keys_in(doc, DependencyClass::Dev.section())
    } else {
        Vec::new()
    };
    let peer = if include_peer {
        keys_in(doc, DependencyClass::Peer.section())
    } else {
        Vec::new()
    };
    assert(!include_dev ==> dev.deep_view() == Seq::<Seq<char>>::empty());
    assert(!include_peer ==> peer.deep_view() == Seq::<Seq<char>>::empty());
    (production, dev, peer)
}

/// The names to ask the registry for: the production names, then the
/// development names, then the peer names. A name that stands in two lists
/// is asked for twice.
pub fn merge_names(production: &Vec<String>, dev: &Vec<String>, peer: &Vec<String>) -> (all: Vec<
    String,
>)
    ensures
        all.deep_view() == production.deep_view() + dev.deep_view() + peer.deep_view(),
{
    let mut all: Vec<String> = Vec::new();
    append_names(&mut all, production);
    append_names(&mut all, dev);
    append_names(&mut all, peer);
    all
}

fn append_names(all: &mut Vec<String>, names: &Vec<String>)
    ensures
        final(all).deep_view() == old(all).deep_view() + names.deep_view(),
{
    let mut i: usize = 0;
    while i < names.len()
        invariant
            i <= names.len(),
            all.deep_view() == old(all).deep_view() + names.deep_view().take(i as int),
        decreases names.len() - i,
    {
        let ghost before = all.deep_view();
        all.push(names[i].clone());
        proof {
            let name = names.deep_view()[i as int];
            assert(all.deep_view() =~= before.push(name));
            assert(names.deep_view().take(i + 1) =~= names.deep_view().take(i as int).push(name));
        }
        i += 1;
    }
    assert(names.deep_view().take(names.len() as int) == names.deep_view());
}

/// The manifest could not be read: its text is no JSON.
#[derive(Clone, Debug, PartialEq, Eq)]
pub struct ManifestReadError {
    pub reason: String,
}

/// The manifest could not be written out.
#[derive(Clone, Debug, PartialEq, Eq)]
pub struct PersistenceError {
    pub reason: String,
}

/// Reads the text of a manifest. A text that is JSON gives the document
/// that it spells; any other text is an error.
pub fn parse_manifest(text: &str) -> (r: Result<serde_json::Value, ManifestReadError>)
    ensures
        match json_text_strings(text@) {
            Some(strings) => r matches Ok(doc) && json_strings(doc) == strings,
            None => r is Err,
        },
{
    match parse_json(text) {
        Ok(doc) => Ok(doc),
        Err(error) => Err(ManifestReadError { reason: json_error_text(&error) }),
    }
}

/// Writes a manifest out as indented JSON.
pub fn render_manifest(doc: &serde_json::Value) -> (r: Result<String, PersistenceError>)
    ensures
        match json_rendering(*doc) {
            Some(written) => r matches Ok(text) && text@ == written,
            None => r is Err,
        },
{
    match render_json(doc) {
        Ok(text) => Ok(text),
        Err(error) => Err(PersistenceError { reason: json_error_text(&error) }),
    }
}

} // verus!
