//! Records and the in-memory store that holds them by name.

use vstd::hash_map::StringHashMap;
use vstd::prelude::*;

verus! {

/// A named record with a level.
#[derive(Debug, PartialEq, Eq)]
pub struct Wizard {
    pub name: String,
    pub level: u8,
}

/// The mathematical value of a [`Wizard`].
pub struct WizardView {
    pub name: Seq<char>,
    pub level: u8,
}

impl View for Wizard {
    type V = WizardView;

    open spec fn view(&self) -> WizardView {
        WizardView { name: self.name@, level: self.level }
    }
}

impl Clone for Wizard {
    fn clone(&self) -> (copy: Self)
        ensures
            copy@ == self@,
    {
        Wizard { name: self.name.clone(), level: self.level }
    }
}

/// The parameters of a greeting request. Without a name the greeting goes
/// to the world.
#[derive(Debug, PartialEq, Eq)]
pub struct NameParams {
    pub name: String,
}

/// The name that is greeted when a request gives none.
pub open spec fn default_name() -> Seq<char> {
    "World"@
}

impl Default for NameParams {
    fn default() -> (params: Self)
        ensures
            params.name@ == default_name(),
    {
        Self { name: String::from_str("World") }
    }
}

impl NameParams {
    /// The parameters that a query gives: the name it carries, else the
    /// default.
    pub fn from_query(name: Option<&String>) -> (params: Self)
        ensures
            params.name@ == match name {
                Some(given) => given@,
                None => default_name(),
            },
    {
        match name {
            Some(given) => Self { name: given.clone() },
            None => Self::default(),
        }
    }
}

/// The store of records, keyed by name. At most one record is held per
/// name, and each is held under its own name.
pub struct Repository {
    wizards: StringHashMap<Wizard>,
}

impl View for Repository {
    type V = Map<Seq<char>, WizardView>;

    closed spec fn view(&self) -> Map<Seq<char>, WizardView> {
        self.wizards@.map_values(|w: Wizard| w@)
    }
}

impl Repository {
    /// Every record is held under its own name.
    pub open spec fn well_formed(&self) -> bool {
        forall|name: Seq<char>| #[trigger] self@.contains_key(name) ==> self@[name].name == name
    }

    /// An empty store.
    pub fn new() -> (repository: Self)
        ensures
            repository@ == Map::<Seq<char>, WizardView>::empty(),
            repository.well_formed(),
    {
        let repository = Repository { wizards: StringHashMap::new() };
        assert(repository@ =~= Map::<Seq<char>, WizardView>::empty());
        repository
    }

    /// The number of records.
    pub fn len(&self) -> (n: usize)
        ensures
            n == self@.len(),
    {
        assert(self@.dom() =~= self.wizards@.dom());
        self.wizards.len()
    }

    /// Puts `wizard` into the store under its name. A record that was held
    /// under that name is replaced: the last write wins.
    pub fn insert(&mut self, wizard: Wizard)
        ensures
            final(self)@ == old(self)@.insert(wizard.name@, wizard@),
            old(self).well_formed() ==> final(self).well_formed(),
    {
        self.wizards.insert(wizard.name.clone(), wizard);
        assert(self@ =~= old(self)@.insert(wizard.name@, wizard@));
    }

    /// The record held under `name`, if there is one.
    pub fn get(&self, name: &str) -> (found: Option<&Wizard>)
        ensures
            match found {
                Some(wizard) => self@.contains_key(name@) && self@[name@] == wizard@,
                None => !self@.contains_key(name@),
            },
    {
        self.wizards.get(name)
    }
}

} // verus!
