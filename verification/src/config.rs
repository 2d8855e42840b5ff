//! The installed FFmpeg engines, the active one, and the user's presets.
use vstd::prelude::*;
use crate::ids::{fresh_id, uuid_v4_text};
use crate::queue::{engine_busy, Queue};
use crate::text::{first_where, lemma_first_where, lemma_first_where_found, owned, str_eq};

verus! {

/// An FFmpeg engine known to the application.
#[derive(Debug, Clone)]
pub struct Installed {
    pub id: String,
    pub name: String,
    pub path: String,
    pub managed: bool,
    pub checksum: String,
}

impl Installed {
    /// A copy of this record.
    pub fn duplicate(&self) -> (r: Installed)
        ensures
            r == *self,
    {
        Installed {
            id: self.id.clone(),
            name: self.name.clone(),
            path: self.path.clone(),
            managed: self.managed,
            checksum: self.checksum.clone(),
        }
    }
}

/// The saved settings: the active engine's id, the known engines, and the user's
/// presets (each kept as its JSON text).
#[derive(Debug, Clone)]
pub struct Config {
    pub active: String,
    pub versions: Vec<Installed>,
    pub presets: Vec<String>,
}

/// Why a configuration request is refused.
#[derive(Debug)]
pub enum ConfigError {
    NoEngine,
    UnknownVersion,
}

impl ConfigError {
    /// The message shown for this refusal.
    pub open spec fn text(self) -> Seq<char> {
        match self {
            ConfigError::NoEngine => "Installez ou importez FFmpeg dans Versions."@,
            ConfigError::UnknownVersion => "Version inconnue"@,
        }
    }

    /// The message shown for this refusal.
    pub fn message(&self) -> (r: String)
        ensures
            r@ == self.text(),
    {
        match self {
            ConfigError::NoEngine => owned("Installez ou importez FFmpeg dans Versions."),
            ConfigError::UnknownVersion => owned("Version inconnue"),
        }
    }
}

/// Why removing an engine is refused.
#[derive(Debug)]
pub enum RemoveError {
    ActiveVersion,
    UnknownVersion,
    InUse,
    OutsideRoot,
}

impl RemoveError {
    /// The message shown for this refusal.
    pub open spec fn text(self) -> Seq<char> {
        match self {
            RemoveError::ActiveVersion => "Sélectionnez une autre version avant de retirer la version active."@,
            RemoveError::UnknownVersion => "Version inconnue"@,
            RemoveError::InUse => "Cette version est utilisée par une tâche."@,
            RemoveError::OutsideRoot => "Chemin hors du dossier des versions"@,
        }
    }

    /// The message shown for this refusal.
    pub fn message(&self) -> (r: String)
        ensures
            r@ == self.text(),
    {
        match self {
            RemoveError::ActiveVersion => owned(
                "Sélectionnez une autre version avant de retirer la version active.",
            ),
            RemoveError::UnknownVersion => owned("Version inconnue"),
            RemoveError::InUse => owned("Cette version est utilisée par une tâche."),
            RemoveError::OutsideRoot => owned("Chemin hors du dossier des versions"),
        }
    }
}

/// The test for an engine with id `id`, as a predicate.
pub open spec fn with_id(id: Seq<char>) -> spec_fn(Installed) -> bool {
    |v: Installed| v.id@ == id
}

/// The test for an engine at path `path`, as a predicate.
pub open spec fn with_path(path: Seq<char>) -> spec_fn(Installed) -> bool {
    |v: Installed| v.path@ == path
}

/// Some engine of `vs` has the id `id`.
pub open spec fn has_id(vs: Seq<Installed>, id: Seq<char>) -> bool {
    exists|k: int| 0 <= k < vs.len() && (#[trigger] vs[k]).id@ == id
}

/// No two engines share an id.
pub open spec fn ids_unique(vs: Seq<Installed>) -> bool {
    forall|i: int, j: int| 0 <= i < j < vs.len() ==> (#[trigger] vs[i]).id@ != (#[trigger] vs[j]).id@
}

/// The path of the engine that jobs run: that of the first engine whose id is the
/// active one, if any.
pub open spec fn engine_path(c: Config) -> Option<Seq<char>> {
    let i = first_where(c.versions@, with_id(c.active@));
    if i < c.versions@.len() {
        Some(c.versions@[i as int].path@)
    } else {
        None
    }
}

/// The engines of `vs` other than those with id `id`, in order.
pub open spec fn without_id(vs: Seq<Installed>, id: Seq<char>) -> Seq<Installed>
    decreases vs.len(),
{
    if vs.len() == 0 {
        vs
    } else if vs.last().id@ == id {
        without_id(vs.drop_last(), id)
    } else {
        without_id(vs.drop_last(), id).push(vs.last())
    }
}

/// An unmanaged engine record for the engine at `path`, named `name`, with id `id`.
pub open spec fn unmanaged_record(v: Installed, id: Seq<char>, name: Seq<char>, path: Seq<char>) -> bool {
    &&& v.id@ == id
    &&& v.name@ == name
    &&& v.path@ == path
    &&& !v.managed
    &&& v.checksum@ == Seq::<char>::empty()
}

/// A managed engine record for release `tag`, named `name`, at `path`, with the given
/// checksum record.
pub open spec fn managed_record(v: Installed, tag: Seq<char>, name: Seq<char>, path: Seq<char>, checksum: Seq<char>) -> bool {
    &&& v.id@ == tag
    &&& v.name@ == name
    &&& v.path@ == path
    &&& v.managed
    &&& v.checksum@ == checksum
}

/// `after` is `before` once the engine at `path`, named `name`, was imported: the
/// first engine known at that path becomes the active one; without one, a new unmanaged
/// record is added last and becomes the active one.
pub open spec fn imported(before: Config, after: Config, name: Seq<char>, path: Seq<char>) -> bool {
    let i = first_where(before.versions@, with_path(path));
    &&& after.presets == before.presets
    &&& if i < before.versions@.len() {
        &&& after.versions == before.versions
        &&& after.active@ == before.versions@[i as int].id@
    } else {
        &&& after.versions@.len() == before.versions@.len() + 1
        &&& after.versions@.drop_last() == before.versions@
        &&& unmanaged_record(after.versions@.last(), after.active@, name, path)
    }
}

/// Ids stay unique when one record with a new id is added.
proof fn lemma_unique_after_push(vs: Seq<Installed>, v: Installed)
    requires
        ids_unique(vs),
        !has_id(vs, v.id@),
    ensures
        ids_unique(vs.push(v)),
{
    let t = vs.push(v);
    assert forall|i: int, j: int| 0 <= i < j < t.len() implies (#[trigger] t[i]).id@ != (
    #[trigger] t[j]).id@ by {
        if j == vs.len() {
            assert(t[i] == vs[i]);
        } else {
            assert(t[i] == vs[i] && t[j] == vs[j]);
        }
    }
}

/// With unique ids, the engine that runs is the one whose id is active, wherever it is.
proof fn lemma_engine_of_unique(c: Config, k: int)
    requires
        ids_unique(c.versions@),
        0 <= k < c.versions@.len(),
        c.versions@[k].id@ == c.active@,
    ensures
        engine_path(c) == Some(c.versions@[k].path@),
{
    lemma_first_where_found(c.versions@, with_id(c.active@));
    let f = first_where(c.versions@, with_id(c.active@));
    if f < k {
        assert(c.versions@[f as int].id@ == c.versions@[k].id@);
    }
    assert(f <= k);
    if f != k {
        assert(!with_id(c.active@)(c.versions@[k]));
    }
}

/// After an import, when ids are unique and a new record got an unused id, the engine
/// that jobs run is the imported one.
pub proof fn law_imported_engine_runs(before: Config, after: Config, name: Seq<char>, path: Seq<char>)
    requires
        imported(before, after, name, path),
        ids_unique(before.versions@),
        after.versions@.len() > before.versions@.len() ==> !has_id(before.versions@, after.active@),
    ensures
        engine_path(after) == Some(path),
        ids_unique(after.versions@),
{
    lemma_first_where_found(before.versions@, with_path(path));
    let i = first_where(before.versions@, with_path(path));
    if i < before.versions@.len() {
        lemma_engine_of_unique(after, i as int);
    } else {
        assert(after.versions@ == before.versions@.push(after.versions@.last()));
        lemma_unique_after_push(before.versions@, after.versions@.last());
        lemma_engine_of_unique(after, before.versions@.len() as int);
    }
}

/// After an engine is registered for a release that was not installed, the engine
/// that jobs run is the registered one, and ids that were unique stay unique.
pub proof fn law_registered_engine_runs(before: Config, after: Config, tag: Seq<char>, name: Seq<char>, path: Seq<char>, checksum: Seq<char>)
    requires
        !has_id(before.versions@, tag),
        after.versions@.len() == before.versions@.len() + 1,
        after.versions@.drop_last() == before.versions@,
        managed_record(after.versions@.last(), tag, name, path, checksum),
        after.active@ == tag,
    ensures
        engine_path(after) == Some(path),
        ids_unique(before.versions@) ==> ids_unique(after.versions@),
{
    let vs = after.versions@;
    let n = before.versions@.len();
    assert(vs == before.versions@.push(vs.last()));
    assert forall|k: int| 0 <= k < n implies !with_id(tag)(#[trigger] vs[k]) by {
        assert(vs[k] == before.versions@[k]);
    }
    lemma_first_where(vs, with_id(tag), n as int);
    if ids_unique(before.versions@) {
        lemma_unique_after_push(before.versions@, vs.last());
    }
}

/// Removing an engine other than the active one leaves the engine that jobs run
/// unchanged, when ids are unique.
pub proof fn law_removal_keeps_running_engine(before: Config, after: Config, id: Seq<char>)
    requires
        ids_unique(before.versions@),
        before.active@ != id,
        after.active == before.active,
        after.versions@ == without_id(before.versions@, id),
    ensures
        engine_path(after) == engine_path(before),
{
    law_removal_forgets_only_that_id(before.versions@, id);
    lemma_first_where_found(before.versions@, with_id(before.active@));
    lemma_first_where_found(after.versions@, with_id(after.active@));
    let i = first_where(before.versions@, with_id(before.active@));
    if i < before.versions@.len() {
        let v = before.versions@[i as int];
        assert(before.versions@.contains(v));
        assert(after.versions@.contains(v));
        let k = choose|k: int| 0 <= k < after.versions@.len() && after.versions@[k] == v;
        lemma_engine_of_unique(after, k);
        lemma_engine_of_unique(before, i as int);
    } else {
        let f = first_where(after.versions@, with_id(after.active@));
        if f < after.versions@.len() {
            let w = after.versions@[f as int];
            assert(after.versions@.contains(w));
            assert(before.versions@.contains(w));
            let k = choose|k: int| 0 <= k < before.versions@.len() && before.versions@[k] == w;
            assert(with_id(before.active@)(before.versions@[k]));
        }
    }
}

impl Config {
    /// The position of the first engine with id `id`, if any.
    pub fn find_version(&self, id: &str) -> (r: Option<usize>)
        ensures
            r is None <==> first_where(self.versions@, with_id(id@)) == self.versions@.len(),
            r matches Some(i) ==> i == first_where(self.versions@, with_id(id@)) && i
                < self.versions@.len(),
            r is None <==> !has_id(self.versions@, id@),
    {
        for i in 0..self.versions.len()
            invariant
                forall|k: int| 0 <= k < i ==> !with_id(id@)(#[trigger] self.versions@[k]),
        {
            if str_eq(self.versions[i].id.as_str(), id) {
                proof {
                    lemma_first_where(self.versions@, with_id(id@), i as int);
                }
                return Some(i);
            }
        }
        proof {
            lemma_first_where(self.versions@, with_id(id@), self.versions@.len() as int);
        }
        None
    }

    /// The position of the first engine at path `path`, if any.
    pub fn find_path(&self, path: &str) -> (r: Option<usize>)
        ensures
            r is None <==> first_where(self.versions@, with_path(path@)) == self.versions@.len(),
            r matches Some(i) ==> i == first_where(self.versions@, with_path(path@)) && i
                < self.versions@.len(),
    {
        for i in 0..self.versions.len()
            invariant
                forall|k: int| 0 <= k < i ==> !with_path(path@)(#[trigger] self.versions@[k]),
        {
            if str_eq(self.versions[i].path.as_str(), path) {
                proof {
                    lemma_first_where(self.versions@, with_path(path@), i as int);
                }
                return Some(i);
            }
        }
        proof {
            lemma_first_where(self.versions@, with_path(path@), self.versions@.len() as int);
        }
        None
    }

    /// Whether an engine with id `id` is known.
    pub fn has_version(&self, id: &str) -> (r: bool)
        ensures
            r == has_id(self.versions@, id@),
    {
        self.find_version(id).is_some()
    }

    /// The path of the active engine.
    pub fn binary(&self) -> (r: Result<String, ConfigError>)
        ensures
            engine_path(*self) matches Some(p) ==> r matches Ok(s) && s@ == p,
            engine_path(*self) is None ==> r matches Err(ConfigError::NoEngine),
    {
        match self.find_version(self.active.as_str()) {
            Some(i) => Ok(self.versions[i].path.clone()),
            None => Err(ConfigError::NoEngine),
        }
    }

    /// Makes the engine with id `id` the active one; refused when no engine has that id.
    pub fn select(&mut self, id: String) -> (r: Result<(), ConfigError>)
        ensures
            r is Ok <==> has_id(old(self).versions@, id@),
            r is Err ==> (r matches Err(ConfigError::UnknownVersion) && *final(self) == *old(self)),
            r is Ok ==> final(self).active@ == id@ && final(self).versions == old(self).versions
                && final(self).presets == old(self).presets,
            r is Ok ==> engine_path(*final(self)) == Some(
                old(self).versions@[first_where(old(self).versions@, with_id(id@)) as int].path@,
            ),
    {
        if !self.has_version(id.as_str()) {
            return Err(ConfigError::UnknownVersion);
        }
        proof {
            lemma_first_where_found(self.versions@, with_id(id@));
        }
        self.active = id;
        Ok(())
    }

    /// Records an engine that the user imported from `path`, with id `id`, and makes it
    /// the active one.
    pub fn add_unmanaged(&mut self, id: String, name: String, path: String)
        ensures
            final(self).versions@.len() == old(self).versions@.len() + 1,
            final(self).versions@.drop_last() == old(self).versions@,
            unmanaged_record(final(self).versions@.last(), id@, name@, path@),
            final(self).active@ == id@,
            final(self).presets == old(self).presets,
    {
        self.active = id.clone();
        self.versions.push(
            Installed { id, name, path, managed: false, checksum: String::new() },
        );
        assert(self.versions@.drop_last() =~= old(self).versions@);
    }

    /// Makes the engine at `path` the active one, recording it first, with a new random
    /// id, when no engine at that path is known.
    pub fn import_version(&mut self, name: String, path: String)
        ensures
            imported(*old(self), *final(self), name@, path@),
            first_where(old(self).versions@, with_path(path@)) == old(self).versions@.len()
                ==> uuid_v4_text(final(self).active@),
    {
        match self.find_path(path.as_str()) {
            Some(i) => {
                self.active = self.versions[i].id.clone();
            },
            None => {
                let id = fresh_id();
                self.add_unmanaged(id, name, path);
            },
        }
    }

    /// Records an engine installed by the application for release `tag` and makes it
    /// the active one.
    pub fn register_managed(&mut self, tag: String, name: String, path: String, checksum: String)
        ensures
            final(self).versions@.len() == old(self).versions@.len() + 1,
            final(self).versions@.drop_last() == old(self).versions@,
            managed_record(final(self).versions@.last(), tag@, name@, path@, checksum@),
            final(self).active@ == tag@,
            final(self).presets == old(self).presets,
    {
        self.active = tag.clone();
        self.versions.push(Installed { id: tag, name, path, managed: true, checksum });
        assert(self.versions@.drop_last() =~= old(self).versions@);
    }

    /// Checks that the engine `id` may be removed: it is not the active one, it is
    /// known, and no queued or running job uses its path. Gives its position.
    pub fn check_removal(&self, id: &str, queue: &Queue) -> (r: Result<usize, RemoveError>)
        ensures
            self.active@ == id@ ==> r matches Err(RemoveError::ActiveVersion),
            self.active@ != id@ && !has_id(self.versions@, id@) ==> r matches Err(
                RemoveError::UnknownVersion,
            ),
            self.active@ != id@ && has_id(self.versions@, id@) ==> {
                let i = first_where(self.versions@, with_id(id@));
                &&& i < self.versions@.len()
                &&& engine_busy(queue.jobs@, self.versions@[i as int].path@) ==> (r matches Err(
                    RemoveError::InUse,
                ))
                &&& !engine_busy(queue.jobs@, self.versions@[i as int].path@) ==> r == Ok::<
                    usize,
                    RemoveError,
                >(i as usize)
            },
    {
        if str_eq(self.active.as_str(), id) {
            return Err(RemoveError::ActiveVersion);
        }
        let i = match self.find_version(id) {
            Some(i) => i,
            None => {
                return Err(RemoveError::UnknownVersion);
            },
        };
        if queue.engine_in_use(self.versions[i].path.as_str()) {
            return Err(RemoveError::InUse);
        }
        Ok(i)
    }

    /// Forgets every engine with id `id`.
    pub fn remove_version(&mut self, id: &str)
        ensures
            final(self).versions@ == without_id(old(self).versions@, id@),
            final(self).active == old(self).active,
            final(self).presets == old(self).presets,
    {
        let mut kept: Vec<Installed> = Vec::new();
        for i in 0..self.versions.len()
            invariant
                kept@ == without_id(self.versions@.take(i as int), id@),
        {
            let ghost before = self.versions@.take(i as int);
            assert(self.versions@.take(i + 1).drop_last() =~= before);
            if !str_eq(self.versions[i].id.as_str(), id) {
                kept.push(self.versions[i].duplicate());
            }
        }
        assert(self.versions@.take(self.versions@.len() as int) =~= self.versions@);
        self.versions = kept;
    }
}

/// Removing the engines with id `id` leaves no engine with that id and keeps every
/// other engine, in order.
pub proof fn law_removal_forgets_only_that_id(vs: Seq<Installed>, id: Seq<char>)
    ensures
        !has_id(without_id(vs, id), id),
        forall|v: Installed| vs.contains(v) && v.id@ != id ==> without_id(vs, id).contains(v),
        forall|v: Installed| #[trigger] without_id(vs, id).contains(v) ==> vs.contains(v),
        ids_unique(vs) ==> ids_unique(without_id(vs, id)),
    decreases vs.len(),
{
    if vs.len() > 0 {
        law_removal_forgets_only_that_id(vs.drop_last(), id);
        let w = without_id(vs.drop_last(), id);
        assert forall|v: Installed| vs.contains(v) && v.id@ != id implies without_id(vs, id).contains(v) by {
            let k = choose|k: int| 0 <= k < vs.len() && vs[k] == v;
            if k < vs.len() - 1 {
                assert(vs.drop_last()[k] == v);
                assert(vs.drop_last().contains(v));
                if vs.last().id@ != id {
                    let j = choose|j: int| 0 <= j < w.len() && w[j] == v;
                    assert(w.push(vs.last())[j] == v);
                }
            } else {
                assert(without_id(vs, id).last() == v);
            }
        }
        assert forall|v: Installed| #[trigger] without_id(vs, id).contains(v) implies vs.contains(v) by {
            let r = without_id(vs, id);
            let j = choose|j: int| 0 <= j < r.len() && r[j] == v;
            if vs.last().id@ != id && j == r.len() - 1 {
                assert(vs[vs.len() - 1] == v);
            } else {
                assert(w[j] == v);
                assert(w.contains(v));
                assert(vs.drop_last().contains(v));
                let k = choose|k: int| 0 <= k < vs.drop_last().len() && vs.drop_last()[k] == v;
                assert(vs[k] == v);
            }
        }
        if vs.last().id@ != id {
            assert forall|k: int| 0 <= k < w.push(vs.last()).len() implies (#[trigger] w.push(vs.last())[k]).id@ != id by {
                if k < w.len() {
                    assert(w.contains(w[k]));
                }
            }
        }
        if ids_unique(vs) {
            assert(ids_unique(vs.drop_last()));
            if vs.last().id@ != id {
                assert forall|i: int, j: int| 0 <= i < j < w.push(vs.last()).len() implies (#[trigger] w.push(vs.last())[i]).id@ != (#[trigger] w.push(vs.last())[j]).id@ by {
                    if j == w.len() {
                        assert(w.contains(w[i]));
                        assert(vs.drop_last().contains(w[i]));
                        let k = choose|k: int| 0 <= k < vs.drop_last().len() && vs.drop_last()[k] == w[i];
                        assert(vs[k] == w[i]);
                    }
                }
            }
        }
    }
}

/// The user's presets, as far as the checks on them read them: whether the fields
/// `id` and `name` hold strings and the field `data` holds an object.
#[derive(Debug)]
pub struct PresetShape {
    pub id_is_string: bool,
    pub name_is_string: bool,
    pub data_is_object: bool,
}

/// Why a list of presets is refused.
#[derive(Debug)]
pub enum PresetError {
    TooMany,
    Invalid,
}

impl PresetError {
    /// The message shown for this refusal.
    pub open spec fn text(self) -> Seq<char> {
        match self {
            PresetError::TooMany => "Maximum 500 presets"@,
            PresetError::Invalid => "Preset invalide"@,
        }
    }

    /// The message shown for this refusal.
    pub fn message(&self) -> (r: String)
        ensures
            r@ == self.text(),
    {
        match self {
            PresetError::TooMany => owned("Maximum 500 presets"),
            PresetError::Invalid => owned("Preset invalide"),
        }
    }
}

/// A preset is kept only with a string id, a string name and an object as data.
pub open spec fn preset_valid(p: PresetShape) -> bool {
    p.id_is_string && p.name_is_string && p.data_is_object
}

/// Checks a list of presets before it replaces the saved one: at most 500 of them,
/// each valid.
pub fn check_presets(presets: &[PresetShape]) -> (r: Result<(), PresetError>)
    ensures
        presets@.len() > 500 ==> r matches Err(PresetError::TooMany),
        presets@.len() <= 500 && (exists|k: int|
            0 <= k < presets@.len() && !preset_valid(#[trigger] presets@[k])) ==> r matches Err(
            PresetError::Invalid,
        ),
        presets@.len() <= 500 && (forall|k: int|
            0 <= k < presets@.len() ==> preset_valid(#[trigger] presets@[k])) ==> r is Ok,
{
    if presets.len() > 500 {
        return Err(PresetError::TooMany);
    }
    for k in 0..presets.len()
        invariant
            presets@.len() <= 500,
            forall|j: int| 0 <= j < k ==> preset_valid(#[trigger] presets@[j]),
    {
        let p = &presets[k];
        if !p.id_is_string || !p.name_is_string || !p.data_is_object {
            return Err(PresetError::Invalid);
        }
    }
    Ok(())
}

} // verus!
