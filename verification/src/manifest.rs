//! The manifest of the actors that the subnet is built from: the code of each,
//! by name.

use crate::key::Key;
use crate::vecmap::VecMap;
use cid::Cid;
use cid::CidGeneric;
use vstd::prelude::*;

verus! {

/// `cid::CidGeneric`: a content identifier, here that of an actor's code.
#[verifier::external_type_specification]
#[verifier::external_body]
pub struct ExCidGeneric<const S: usize>(CidGeneric<S>);

impl Key for String {
    type Id = Seq<char>;

    open spec fn ident(&self) -> Seq<char> {
        self@
    }

    fn same(&self, other: &Self) -> (r: bool) {
        *self == *other
    }

    fn dup(&self) -> (r: Self) {
        self.clone()
    }
}

/// How many actors a manifest must name.
pub const REQUIRED_ACTORS: usize = 8;

/// The names of the actors that a manifest must name.
pub open spec fn required_actors() -> Seq<Seq<char>> {
    seq![
        "blobs"@,
        "blob_reader"@,
        "bucket"@,
        "chainmetadata"@,
        "gas_market_eip1559"@,
        "recall_config"@,
        "eam"@,
        "timehub"@,
    ]
}

/// The name of the `i`-th actor that a manifest must name.
pub fn required_actor(i: usize) -> (r: &'static str)
    requires
        i < REQUIRED_ACTORS,
    ensures
        r@ == required_actors()[i as int],
{
    if i == 0 {
        "blobs"
    } else if i == 1 {
        "blob_reader"
    } else if i == 2 {
        "bucket"
    } else if i == 3 {
        "chainmetadata"
    } else if i == 4 {
        "gas_market_eip1559"
    } else if i == 5 {
        "recall_config"
    } else if i == 6 {
        "eam"
    } else {
        "timehub"
    }
}

/// A manifest lacks an actor that it must name.
#[derive(Debug)]
pub struct MissingActor {
    /// The name of the actor.
    pub name: &'static str,
}

/// The codes that the first `n` entries name: a later entry replaces an
/// earlier one of the same name.
pub open spec fn named(entries: Seq<(String, Cid)>, n: int) -> Map<Seq<char>, Cid>
    decreases n,
{
    if n <= 0 {
        Map::empty()
    } else {
        named(entries, n - 1).insert(entries[n - 1].0@, entries[n - 1].1)
    }
}

/// The first of the first `n` required actors that the map does not name, or
/// `n` where it names them all.
pub open spec fn first_missing(m: Map<Seq<char>, Cid>, n: int) -> int
    decreases n,
{
    if n <= 0 {
        0
    } else {
        let before = first_missing(m, n - 1);
        if before < n - 1 || !m.contains_key(required_actors()[n - 1]) {
            before
        } else {
            n
        }
    }
}

/// The code of each actor, by name.
pub struct Manifest {
    pub code_by_name: VecMap<String, Cid>,
}

impl Manifest {
    /// Well-formedness: each name occurs once.
    pub open spec fn wf(&self) -> bool {
        self.code_by_name.wf()
    }

    /// The code that each name stands for.
    pub open spec fn view(&self) -> Map<Seq<char>, Cid> {
        self.code_by_name@
    }

    /// The manifest that names the given codes. Refused where an actor that
    /// must be named is not: the error names the first such.
    pub fn new(entries: Vec<(String, Cid)>) -> (r: Result<Manifest, MissingActor>)
        ensures
            match r {
                Ok(m) => m.wf() && m@ == named(entries@, entries@.len() as int) && first_missing(
                    m@,
                    REQUIRED_ACTORS as int,
                ) == REQUIRED_ACTORS,
                Err(e) => {
                    let missing = first_missing(
                        named(entries@, entries@.len() as int),
                        REQUIRED_ACTORS as int,
                    );
                    missing < REQUIRED_ACTORS && e.name@ == required_actors()[missing]
                },
            },
    {
        let mut code_by_name: VecMap<String, Cid> = VecMap::new();
        let n = entries.len();
        let mut i: usize = 0;
        while i < n
            invariant
                i <= n,
                n == entries@.len(),
                code_by_name.wf(),
                code_by_name@ == named(entries@, i as int),
            decreases n - i,
        {
            code_by_name.insert(entries[i].0.clone(), entries[i].1);
            i += 1;
        }
        let mut j: usize = 0;
        while j < REQUIRED_ACTORS
            invariant
                j <= REQUIRED_ACTORS,
                code_by_name.wf(),
                code_by_name@ == named(entries@, entries@.len() as int),
                first_missing(code_by_name@, j as int) == j,
            decreases REQUIRED_ACTORS - j,
        {
            let name = required_actor(j);
            if !code_by_name.contains_key(&String::from_str(name)) {
                proof {
                    lemma_first_missing_stays(code_by_name@, j as int, REQUIRED_ACTORS as int);
                }
                return Err(MissingActor { name });
            }
            j += 1;
        }
        Ok(Manifest { code_by_name })
    }

    /// The code of the actor of that name, if the manifest names it.
    pub fn code_by_name(&self, name: &str) -> (r: Option<&Cid>)
        requires
            self.wf(),
        ensures
            match r {
                Some(c) => self@.contains_key(name@) && *c == self@[name@],
                None => !self@.contains_key(name@),
            },
    {
        self.code_by_name.get(&String::from_str(name))
    }

    /// The codes of the actors of the given names, which the manifest must
    /// name, each with its name.
    pub fn get_subset(&self, names: Vec<&str>) -> (r: Vec<(String, Cid)>)
        requires
            self.wf(),
            forall|i: int| 0 <= i < names@.len() ==> self@.contains_key(#[trigger] names@[i]@),
        ensures
            r@.len() == names@.len(),
            forall|i: int|
                0 <= i < r@.len() ==> (#[trigger] r@[i]).0@ == names@[i]@ && r@[i].1
                    == self@[names@[i]@],
    {
        let n = names.len();
        let mut r: Vec<(String, Cid)> = Vec::new();
        let mut i: usize = 0;
        while i < n
            invariant
                i <= n,
                n == names@.len(),
                self.wf(),
                forall|k: int| 0 <= k < names@.len() ==> self@.contains_key(#[trigger] names@[k]@),
                r@.len() == i,
                forall|k: int|
                    0 <= k < i ==> (#[trigger] r@[k]).0@ == names@[k]@ && r@[k].1
                        == self@[names@[k]@],
            decreases n - i,
        {
            let name = names[i];
            assert(self@.contains_key(names@[i as int]@));
            let code = *self.code_by_name(name).unwrap();
            r.push((String::from_str(name), code));
            i += 1;
        }
        r
    }
}

/// Once an actor is missing, it is the first that is missing whatever follows.
pub proof fn lemma_first_missing_stays(m: Map<Seq<char>, Cid>, j: int, n: int)
    requires
        0 <= j < n,
        first_missing(m, j) == j,
        !m.contains_key(required_actors()[j]),
    ensures
        first_missing(m, n) == j,
    decreases n - j,
{
    if n > j + 1 {
        lemma_first_missing_stays(m, j, n - 1);
    }
}

} // verus!
