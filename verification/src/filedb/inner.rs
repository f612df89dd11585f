//! The file database: a directory and the maps registered in it, by name.

use vstd::prelude::*;
use super::{default_params, FileDbParams};
use super::dbmap::{FileDbMap, FileDbMapBytes, FileDbMapString, FileDbMapU64};

verus! {

/// What a registry of maps holds: the name and parameters of each map, in the
/// order in which they were made.
pub open spec fn maps_view<KT>(maps: Seq<FileDbMap<KT>>) -> Seq<(Seq<char>, FileDbParams)> {
    maps.map_values(|m: FileDbMap<KT>| m@)
}

/// No two maps have the same name.
pub open spec fn unique_names(s: Seq<(Seq<char>, FileDbParams)>) -> bool {
    forall|i: int, j: int| 0 <= i < j < s.len() ==> s[i].0 != s[j].0
}

/// A map named `name` is registered.
pub open spec fn registered(s: Seq<(Seq<char>, FileDbParams)>, name: Seq<char>) -> bool {
    exists|i: int| 0 <= i < s.len() && #[trigger] s[i].0 == name
}

/// The map named `name`.
pub open spec fn lookup(s: Seq<(Seq<char>, FileDbParams)>, name: Seq<char>) -> (
    Seq<char>,
    FileDbParams,
) {
    s[choose|i: int| 0 <= i < s.len() && #[trigger] s[i].0 == name]
}

/// The map that asking for `name` gives is named `name`.
pub proof fn lemma_created_is_named<KT, E, F: FnOnce() -> Result<(), E>>(
    before: Seq<(Seq<char>, FileDbParams)>,
    after: Seq<(Seq<char>, FileDbParams)>,
    name: Seq<char>,
    params: FileDbParams,
    create: F,
    r: Result<FileDbMap<KT>, E>,
)
    requires
        created(before, after, name, params, create, r),
    ensures
        r matches Ok(m) ==> m@.0 == name,
        registered(after, name) == (r is Ok),
{
    if registered(before, name) {
        let i = choose|i: int| 0 <= i < before.len() && #[trigger] before[i].0 == name;
    } else {
        let outcome = choose|outcome: Result<(), E>|
            {
                &&& call_ensures(create, (), outcome)
                &&& match outcome {
                    Ok(_) => {
                        &&& after == before.push((name, params))
                        &&& r matches Ok(m) && m@ == (name, params)
                    },
                    Err(e) => {
                        &&& after == before
                        &&& r matches Err(e2) && e2 == e
                    },
                }
            };
        if outcome is Ok {
            assert(after[before.len() as int].0 == name);
        }
    }
}

/// Once a map is there, asking for it again gives the same map, whatever the
/// parameters and without making anything, and leaves the registry as it is.
pub proof fn lemma_ask_twice<KT, E, F1: FnOnce() -> Result<(), E>, F2: FnOnce() -> Result<(), E>>(
    before: Seq<(Seq<char>, FileDbParams)>,
    middle: Seq<(Seq<char>, FileDbParams)>,
    after: Seq<(Seq<char>, FileDbParams)>,
    name: Seq<char>,
    first: FileDbParams,
    second: FileDbParams,
    create_first: F1,
    create_second: F2,
    r1: Result<FileDbMap<KT>, E>,
    r2: Result<FileDbMap<KT>, E>,
)
    requires
        created(before, middle, name, first, create_first, r1),
        r1 is Ok,
        created(middle, after, name, second, create_second, r2),
    ensures
        after == middle,
        r2 matches Ok(m2) && r1 matches Ok(m1) && m2@ == m1@,
{
    lemma_created_is_named(before, middle, name, first, create_first, r1);
    if registered(before, name) {
    } else {
        let k = choose|k: int| 0 <= k < middle.len() && #[trigger] middle[k].0 == name;
        if k < before.len() {
            assert(middle[k] == before[k]);
            assert(registered(before, name));
        }
    }
}

/// The state of a file database: its directory and its maps of each kind.
pub struct FileDbState {
    pub path: Seq<char>,
    pub string_maps: Seq<(Seq<char>, FileDbParams)>,
    pub u64_maps: Seq<(Seq<char>, FileDbParams)>,
    pub bytes_maps: Seq<(Seq<char>, FileDbParams)>,
}

/// The index of the map named `name`, if there is one.
fn find_map<KT>(maps: &Vec<FileDbMap<KT>>, name: &String) -> (r: Option<usize>)
    ensures
        match r {
            Some(i) => i < maps@.len() && maps@[i as int]@.0 == name@,
            None => !registered(maps_view(maps@), name@),
        },
{
    let n = maps.len();
    let mut i: usize = 0;
    while i < n
        invariant
            n == maps@.len(),
            0 <= i <= n,
            forall|j: int| 0 <= j < i ==> (#[trigger] maps@[j])@.0 != name@,
        decreases n - i,
    {
        if maps[i].has_name(name) {
            return Some(i);
        }
        i += 1;
    }
    proof {
        let s = maps_view(maps@);
        assert forall|j: int| 0 <= j < s.len() implies #[trigger] s[j].0 != name@ by {
            assert(s[j] == maps@[j]@);
        }
    }
    None
}

/// The map named `name`. Where there is none, `create` is run first: when it
/// succeeds, a map made with `params` is registered; when it fails, its error
/// is passed on and nothing is registered.
fn get_or_create<KT, E, F: FnOnce() -> Result<(), E>>(
    maps: &mut Vec<FileDbMap<KT>>,
    name: &str,
    params: FileDbParams,
    create: F,
) -> (r: Result<FileDbMap<KT>, E>)
    requires
        unique_names(maps_view(old(maps)@)),
        !registered(maps_view(old(maps)@), name@) ==> call_requires(create, ()),
    ensures
        unique_names(maps_view(final(maps)@)),
        created(maps_view(old(maps)@), maps_view(final(maps)@), name@, params, create, r),
{
    let ghost s = maps_view(maps@);
    let name_string = name.to_owned();
    match find_map(maps, &name_string) {
        Some(i) => {
            proof {
                assert(s[i as int] == maps@[i as int]@);
                assert(registered(s, name@));
                let k = choose|k: int| 0 <= k < s.len() && #[trigger] s[k].0 == name@;
                if k != i {
                    if k < i {
                        assert(s[k].0 != s[i as int].0);
                    } else {
                        assert(s[i as int].0 != s[k].0);
                    }
                }
            }
            Ok(maps[i].clone())
        },
        None => {
            let outcome = create();
            match outcome {
                Ok(()) => {
                    let m = FileDbMap::create(name_string, params);
                    maps.push(m.clone());
                    proof {
                        assert(maps_view(maps@) =~= s.push((name@, params)));
                        let t = maps_view(maps@);
                        assert forall|a: int, b: int| 0 <= a < b < t.len() implies t[a].0
                            != t[b].0 by {
                            if b == s.len() {
                                assert(t[a] == s[a]);
                            } else {
                                assert(t[a] == s[a] && t[b] == s[b]);
                            }
                        }
                    }
                    Ok(m)
                },
                Err(e) => Err(e),
            }
        },
    }
}

/// What asking for the map `name` did, from the registry `before` to the
/// registry `after`, with the result `r`:
/// - where a map of that name was registered, `create` was not needed: the
///   result is that map and the registry is unchanged;
/// - otherwise `create` ran once; where it succeeded, the result is the new
///   map `(name, params)`, registered last; where it failed, the result is its
///   error and the registry is unchanged.
pub open spec fn created<KT, E, F: FnOnce() -> Result<(), E>>(
    before: Seq<(Seq<char>, FileDbParams)>,
    after: Seq<(Seq<char>, FileDbParams)>,
    name: Seq<char>,
    params: FileDbParams,
    create: F,
    r: Result<FileDbMap<KT>, E>,
) -> bool {
    if registered(before, name) {
        &&& after == before
        &&& r matches Ok(m) && m@ == lookup(before, name)
    } else {
        exists|outcome: Result<(), E>|
            {
                &&& call_ensures(create, (), outcome)
                &&& match outcome {
                    Ok(_) => {
                        &&& after == before.push((name, params))
                        &&& r matches Ok(m) && m@ == (name, params)
                    },
                    Err(e) => {
                        &&& after == before
                        &&& r matches Err(e2) && e2 == e
                    },
                }
            }
    }
}

/// The directory of a file database and the maps registered in it.
#[derive(Debug)]
pub struct FileDbInner {
    path: String,
    db_maps: Vec<FileDbMapString>,
    db_lists: Vec<FileDbMapU64>,
    db_bytes: Vec<FileDbMapBytes>,
}

impl FileDbInner {
    /// Each kind of map has each name at most once.
    #[verifier::type_invariant]
    spec fn names_are_unique(self) -> bool {
        &&& unique_names(maps_view(self.db_maps@))
        &&& unique_names(maps_view(self.db_lists@))
        &&& unique_names(maps_view(self.db_bytes@))
    }

    /// The directory and the maps.
    pub closed spec fn state(self) -> FileDbState {
        FileDbState {
            path: self.path@,
            string_maps: maps_view(self.db_maps@),
            u64_maps: maps_view(self.db_lists@),
            bytes_maps: maps_view(self.db_bytes@),
        }
    }
}

/// File Database.
#[derive(Debug)]
pub struct FileDb(Box<FileDbInner>);

impl View for FileDb {
    type V = FileDbState;

    closed spec fn view(&self) -> FileDbState {
        self.0.state()
    }
}

impl FileDb {
    /// The database in the directory `path`, with no map yet.
    pub fn open(path: &str) -> (r: Self)
        ensures
            r@.path == path@,
            r@.string_maps == Seq::<(Seq<char>, FileDbParams)>::empty(),
            r@.u64_maps == Seq::<(Seq<char>, FileDbParams)>::empty(),
            r@.bytes_maps == Seq::<(Seq<char>, FileDbParams)>::empty(),
            unique_names(r@.string_maps),
            unique_names(r@.u64_maps),
            unique_names(r@.bytes_maps),
    {
        let inner = FileDbInner {
            path: path.to_owned(),
            db_maps: Vec::new(),
            db_lists: Vec::new(),
            db_bytes: Vec::new(),
        };
        proof {
            assert(maps_view(inner.db_maps@) =~= Seq::<(Seq<char>, FileDbParams)>::empty());
            assert(maps_view(inner.db_lists@) =~= Seq::<(Seq<char>, FileDbParams)>::empty());
            assert(maps_view(inner.db_bytes@) =~= Seq::<(Seq<char>, FileDbParams)>::empty());
        }
        FileDb(Box::new(inner))
    }

    /// The string-keyed map named `name`. Where there is none, `create` makes
    /// its files, then a map with the default parameters is registered; an
    /// error of `create` is passed on.
    pub fn db_map_string<E, F: FnOnce() -> Result<(), E>>(&mut self, name: &str, create: F) -> (r:
        Result<FileDbMapString, E>)
        requires
            !registered(old(self)@.string_maps, name@) ==> call_requires(create, ()),
        ensures
            created(old(self)@.string_maps, final(self)@.string_maps, name@, default_params(), create, r),
            final(self)@ == (FileDbState { string_maps: final(self)@.string_maps, ..old(self)@ }),
            unique_names(final(self)@.string_maps),
            unique_names(final(self)@.u64_maps),
            unique_names(final(self)@.bytes_maps),
    {
        self.db_map_string_with_params(name, FileDbParams::default(), create)
    }

    /// The string-keyed map named `name`. Where there is none, `create` makes
    /// its files, then a map with `params` is registered; an error of `create`
    /// is passed on. An existing map keeps its own parameters.
    pub fn db_map_string_with_params<E, F: FnOnce() -> Result<(), E>>(
        &mut self,
        name: &str,
        params: FileDbParams,
        create: F,
    ) -> (r: Result<FileDbMapString, E>)
        requires
            !registered(old(self)@.string_maps, name@) ==> call_requires(create, ()),
        ensures
            created(old(self)@.string_maps, final(self)@.string_maps, name@, params, create, r),
            final(self)@ == (FileDbState { string_maps: final(self)@.string_maps, ..old(self)@ }),
            unique_names(final(self)@.string_maps),
            unique_names(final(self)@.u64_maps),
            unique_names(final(self)@.bytes_maps),
    {
        proof {
            use_type_invariant(&*self.0);
        }
        let mut maps = Vec::new();
        std::mem::swap(&mut maps, &mut self.0.db_maps);
        let r = get_or_create(&mut maps, name, params, create);
        self.0.db_maps = maps;
        proof {
            use_type_invariant(&*self.0);
        }
        r
    }

    /// The u64-keyed map named `name`. Where there is none, `create` makes
    /// its files, then a map with the default parameters is registered; an
    /// error of `create` is passed on.
    pub fn db_map_u64<E, F: FnOnce() -> Result<(), E>>(&mut self, name: &str, create: F) -> (r:
        Result<FileDbMapU64, E>)
        requires
            !registered(old(self)@.u64_maps, name@) ==> call_requires(create, ()),
        ensures
            created(old(self)@.u64_maps, final(self)@.u64_maps, name@, default_params(), create, r),
            final(self)@ == (FileDbState { u64_maps: final(self)@.u64_maps, ..old(self)@ }),
            unique_names(final(self)@.string_maps),
            unique_names(final(self)@.u64_maps),
            unique_names(final(self)@.bytes_maps),
    {
        self.db_map_u64_with_params(name, FileDbParams::default(), create)
    }

    /// The u64-keyed map named `name`. Where there is none, `create` makes
    /// its files, then a map with `params` is registered; an error of `create`
    /// is passed on. An existing map keeps its own parameters.
    pub fn db_map_u64_with_params<E, F: FnOnce() -> Result<(), E>>(
        &mut self,
        name: &str,
        params: FileDbParams,
        create: F,
    ) -> (r: Result<FileDbMapU64, E>)
        requires
            !registered(old(self)@.u64_maps, name@) ==> call_requires(create, ()),
        ensures
            created(old(self)@.u64_maps, final(self)@.u64_maps, name@, params, create, r),
            final(self)@ == (FileDbState { u64_maps: final(self)@.u64_maps, ..old(self)@ }),
            unique_names(final(self)@.string_maps),
            unique_names(final(self)@.u64_maps),
            unique_names(final(self)@.bytes_maps),
    {
        proof {
            use_type_invariant(&*self.0);
        }
        let mut maps = Vec::new();
        std::mem::swap(&mut maps, &mut self.0.db_lists);
        let r = get_or_create(&mut maps, name, params, create);
        self.0.db_lists = maps;
        proof {
            use_type_invariant(&*self.0);
        }
        r
    }

    /// The bytes-keyed map named `name`. Where there is none, `create` makes
    /// its files, then a map with the default parameters is registered; an
    /// error of `create` is passed on.
    pub fn db_map_bytes<E, F: FnOnce() -> Result<(), E>>(&mut self, name: &str, create: F) -> (r:
        Result<FileDbMapBytes, E>)
        requires
            !registered(old(self)@.bytes_maps, name@) ==> call_requires(create, ()),
        ensures
            created(old(self)@.bytes_maps, final(self)@.bytes_maps, name@, default_params(), create, r),
            final(self)@ == (FileDbState { bytes_maps: final(self)@.bytes_maps, ..old(self)@ }),
            unique_names(final(self)@.string_maps),
            unique_names(final(self)@.u64_maps),
            unique_names(final(self)@.bytes_maps),
    {
        self.db_map_bytes_with_params(name, FileDbParams::default(), create)
    }

    /// The bytes-keyed map named `name`. Where there is none, `create` makes
    /// its files, then a map with `params` is registered; an error of `create`
    /// is passed on. An existing map keeps its own parameters.
    pub fn db_map_bytes_with_params<E, F: FnOnce() -> Result<(), E>>(
        &mut self,
        name: &str,
        params: FileDbParams,
        create: F,
    ) -> (r: Result<FileDbMapBytes, E>)
        requires
            !registered(old(self)@.bytes_maps, name@) ==> call_requires(create, ()),
        ensures
            created(old(self)@.bytes_maps, final(self)@.bytes_maps, name@, params, create, r),
            final(self)@ == (FileDbState { bytes_maps: final(self)@.bytes_maps, ..old(self)@ }),
            unique_names(final(self)@.string_maps),
            unique_names(final(self)@.u64_maps),
            unique_names(final(self)@.bytes_maps),
    {
        proof {
            use_type_invariant(&*self.0);
        }
        let mut maps = Vec::new();
        std::mem::swap(&mut maps, &mut self.0.db_bytes);
        let r = get_or_create(&mut maps, name, params, create);
        self.0.db_bytes = maps;
        proof {
            use_type_invariant(&*self.0);
        }
        r
    }

    /// The directory of the database.
    pub fn path(&self) -> (r: String)
        ensures
            r@ == self@.path,
    {
        self.0.path.clone()
    }
}

} // verus!
