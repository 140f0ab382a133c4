//! The gateway database secret store: the credentials of one provider
//! record, held in memory.

use vstd::prelude::*;
use vstd::string::*;
use crate::name_table::NameTable;
use crate::secret_store::{SecretError, SecretStore};

verus! {

/// The credentials that a list of (name, value) pairs describes; a later
/// pair for the same name wins.
pub open spec fn credential_map(pairs: Seq<(String, String)>) -> Map<Seq<char>, Seq<char>>
    decreases pairs.len(),
{
    if pairs.len() == 0 {
        Map::empty()
    } else {
        credential_map(pairs.drop_last()).insert(pairs.last().0@, pairs.last().1@)
    }
}

/// The text of the error for a credential that is not stored.
pub open spec fn not_found_text(key: Seq<char>) -> Seq<char> {
    "Credential '"@ + key + "' not found in provider"@
}

/// Secret store over the credentials of a provider record.
pub struct DatabaseStore {
    credentials: NameTable<String>,
}

impl View for DatabaseStore {
    type V = Map<Seq<char>, Seq<char>>;

    closed spec fn view(&self) -> Map<Seq<char>, Seq<char>> {
        self.credentials@.map_values(|s: String| s@)
    }
}

impl DatabaseStore {
    /// A store holding the given credentials.
    pub fn new(credentials: Vec<(String, String)>) -> (store: Self)
        ensures
            store@ == credential_map(credentials@),
    {
        let mut table: NameTable<String> = NameTable::new();
        let n = credentials.len();
        let mut i: usize = 0;
        while i < n
            invariant
                n == credentials@.len(),
                0 <= i <= n,
                table@.map_values(|s: String| s@) == credential_map(credentials@.take(i as int)),
            decreases n - i,
        {
            let name = credentials[i].0.clone();
            let value = credentials[i].1.clone();
            let ghost before = table@;
            table.insert(name, value);
            proof {
                assert(credentials@.take(i + 1).drop_last() =~= credentials@.take(i as int));
                assert(table@.map_values(|s: String| s@) =~= before.map_values(|s: String| s@).insert(
                    credentials@[i as int].0@,
                    credentials@[i as int].1@,
                ));
            }
            i = i + 1;
        }
        assert(credentials@.take(n as int) =~= credentials@);
        DatabaseStore { credentials: table }
    }
}

impl SecretStore for DatabaseStore {
    /// The credential stored under `key`, or `NotFound`.
    fn get(&self, key: &str) -> (r: Result<String, SecretError>)
        ensures
            self@.contains_key(key@) ==> (r matches Ok(v) && v@ == self@[key@]),
            !self@.contains_key(key@) ==> (r matches Err(SecretError::NotFound(msg)) && msg@
                == not_found_text(key@)),
    {
        match self.credentials.find(key) {
            Some(i) => {
                proof {
                    assert(self.credentials@.contains_key(key@));
                }
                Ok(self.credentials.value_at(i).clone())
            },
            None => Err(
                SecretError::NotFound(
                    String::from_str("Credential '").concat(key).concat("' not found in provider"),
                ),
            ),
        }
    }

    /// Always available: the credentials are in memory.
    fn health_check(&self) -> (r: Result<(), SecretError>)
        ensures
            r is Ok,
    {
        Ok(())
    }

    /// The backend's name, "database".
    fn name(&self) -> (n: &'static str)
        ensures
            n@ == "database"@,
    {
        "database"
    }
}


/// A store holds a name exactly when some pair it was built from carries
/// that name.
pub proof fn lemma_credential_names(pairs: Seq<(String, String)>, key: Seq<char>)
    ensures
        credential_map(pairs).contains_key(key) <==> exists|i: int|
            0 <= i < pairs.len() && #[trigger] pairs[i].0@ == key,
    decreases pairs.len(),
{
    if pairs.len() > 0 {
        let rest = pairs.drop_last();
        lemma_credential_names(rest, key);
        if exists|i: int| 0 <= i < pairs.len() && #[trigger] pairs[i].0@ == key {
            let i = choose|i: int| 0 <= i < pairs.len() && #[trigger] pairs[i].0@ == key;
            if i < pairs.len() - 1 {
                assert(rest[i].0@ == key);
            }
        }
        if exists|i: int| 0 <= i < rest.len() && #[trigger] rest[i].0@ == key {
            let i = choose|i: int| 0 <= i < rest.len() && #[trigger] rest[i].0@ == key;
            assert(pairs[i].0@ == key);
        }
    }
}

/// The value a store holds for a name is that of the last pair carrying
/// the name.
pub proof fn lemma_credential_value(pairs: Seq<(String, String)>, key: Seq<char>, i: int)
    requires
        0 <= i < pairs.len(),
        pairs[i].0@ == key,
        forall|j: int| i < j < pairs.len() ==> #[trigger] pairs[j].0@ != key,
    ensures
        credential_map(pairs).contains_key(key),
        credential_map(pairs)[key] == pairs[i].1@,
    decreases pairs.len(),
{
    let rest = pairs.drop_last();
    if i < pairs.len() - 1 {
        assert(pairs[pairs.len() - 1].0@ != key);
        assert forall|j: int| i < j < rest.len() implies #[trigger] rest[j].0@ != key by {
            assert(rest[j] == pairs[j]);
        }
        lemma_credential_value(rest, key, i);
    }
}

} // verus!
