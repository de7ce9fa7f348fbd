//! The set of fields that is submitted with the credentials.

use crate::form::{last_value, pairs_of, Pairs, ParsedForm};
use crate::text::text_is;
use vstd::prelude::*;
use vstd::string::*;

verus! {

/// The name of the field that holds the e-mail address or the phone number.
pub open spec fn identifier_field() -> Seq<char> {
    "email"@
}

/// The name of the field that holds the password.
pub open spec fn secret_field() -> Seq<char> {
    "pass"@
}

/// The name of the field that says whether the session is to expire.
pub open spec fn expire_field() -> Seq<char> {
    "expire"@
}

/// The value of the expire field: the session is not forced to expire.
pub open spec fn expire_value() -> Seq<char> {
    "0"@
}

/// The mapping holds the identifier and the secret, and the expire flag
/// with its fixed value.
pub open spec fn holds_credentials(fields: Map<Seq<char>, Seq<char>>) -> bool {
    &&& fields.contains_key(identifier_field())
    &&& fields.contains_key(secret_field())
    &&& fields.contains_pair(expire_field(), expire_value())
}

/// The index of the entry named `key`, where there is one.
pub open spec fn index_of(entries: Pairs, key: Seq<char>) -> Option<int> {
    if exists|i: int| 0 <= i < entries.len() && entries[i].0 == key {
        Some(choose|i: int| 0 <= i < entries.len() && entries[i].0 == key)
    } else {
        None
    }
}

/// No two entries have the same name.
pub open spec fn distinct_names(entries: Pairs) -> bool {
    forall|i: int, j: int|
        0 <= i < entries.len() && 0 <= j < entries.len() && entries[i].0 == entries[j].0 ==> i
            == j
}

/// The mapping that entries with distinct names stand for.
pub open spec fn mapping_of(entries: Pairs) -> Map<Seq<char>, Seq<char>> {
    Map::new(
        |key: Seq<char>| index_of(entries, key) is Some,
        |key: Seq<char>| entries[index_of(entries, key)->0].1,
    )
}

/// The mapping that a list of pairs stands for where a later pair of the
/// same name replaces an earlier one.
pub open spec fn last_wins(pairs: Pairs) -> Map<Seq<char>, Seq<char>>
    decreases pairs.len(),
{
    if pairs.len() == 0 {
        Map::empty()
    } else {
        last_wins(pairs.drop_last()).insert(pairs.last().0, pairs.last().1)
    }
}

/// The fields that are submitted: the hidden fields of the form, then the
/// identifier, the secret and the expire flag, each of which replaces a
/// hidden field of its name.
pub open spec fn submitted_fields(hidden: Pairs, identifier: Seq<char>, secret: Seq<char>) -> Map<
    Seq<char>,
    Seq<char>,
> {
    last_wins(hidden).insert(identifier_field(), identifier).insert(
        secret_field(),
        secret,
    ).insert(expire_field(), expire_value())
}

/// A copy of a list of names with their values.
pub fn copy_of(pairs: &Vec<(String, String)>) -> (copy: Vec<(String, String)>)
    ensures
        pairs_of(copy@) == pairs_of(pairs@),
{
    let mut copy: Vec<(String, String)> = Vec::new();
    let mut i: usize = 0;
    while i < pairs.len()
        invariant
            i <= pairs.len(),
            pairs_of(copy@) == pairs_of(pairs@).take(i as int),
        decreases pairs.len() - i,
    {
        let ghost before = pairs_of(copy@);
        copy.push((pairs[i].0.clone(), pairs[i].1.clone()));
        assert(pairs_of(copy@) =~= before.push(pairs_of(pairs@)[i as int]));
        assert(pairs_of(pairs@).take(i + 1) =~= pairs_of(pairs@).take(i as int).push(
            pairs_of(pairs@)[i as int],
        ));
        i += 1;
    }
    assert(pairs_of(pairs@).take(i as int) =~= pairs_of(pairs@));
    copy
}

/// Gives the name `name` the value `value` among `entries`, whether or
/// not an entry had that name.
#[verifier::loop_isolation(false)]
pub fn put(entries: &mut Vec<(String, String)>, name: String, value: String)
    requires
        distinct_names(pairs_of(old(entries)@)),
    ensures
        distinct_names(pairs_of(final(entries)@)),
        mapping_of(pairs_of(final(entries)@)) == mapping_of(pairs_of(old(entries)@)).insert(
            name@,
            value@,
        ),
{
    let ghost before = pairs_of(entries@);
    let mut i: usize = 0;
    while i < entries.len()
        invariant
            i <= entries.len(),
            forall|j: int| 0 <= j < i ==> before[j].0 != name@,
            before == pairs_of(entries@),
            entries@ == old(entries)@,
            distinct_names(before),
        decreases entries.len() - i,
    {
        if entries[i].0 == name {
            entries.set(i, (name, value));
            proof {
                let after = pairs_of(entries@);
                assert(after =~= before.update(i as int, (name@, value@)));
                assert(before[i as int].0 == name@);
                assert forall|j: int| 0 <= j < after.len() implies after[j].0
                    == before[j].0 by {}
                assert(distinct_names(after));
                assert forall|key: Seq<char>| index_of(after, key) is Some <==> index_of(
                    before,
                    key,
                ) is Some by {
                    if index_of(before, key) is Some {
                        let k = index_of(before, key)->0;
                        assert(after[k].0 == key);
                    }
                    if index_of(after, key) is Some {
                        let k = index_of(after, key)->0;
                        assert(before[k].0 == key);
                    }
                }
                assert forall|key: Seq<char>| index_of(after, key) is Some implies mapping_of(
                    after,
                )[key] == mapping_of(before).insert(name@, value@)[key] by {
                    let k = index_of(after, key)->0;
                    let b = index_of(before, key)->0;
                    assert(before[k].0 == key);
                    assert(k == b);
                }
                assert(mapping_of(after) =~= mapping_of(before).insert(name@, value@));
            }
            return;
        }
        i += 1;
    }
    entries.push((name, value));
    proof {
        let after = pairs_of(entries@);
        assert(after =~= before.push((name@, value@)));
        assert forall|key: Seq<char>| index_of(after, key) is Some <==> (key == name@
            || index_of(before, key) is Some) by {
            if index_of(before, key) is Some {
                let k = index_of(before, key)->0;
                assert(after[k].0 == key);
            }
            if key == name@ {
                assert(after[before.len() as int].0 == key);
            }
            if index_of(after, key) is Some {
                let k = index_of(after, key)->0;
                if k < before.len() {
                    assert(before[k].0 == key);
                }
            }
        }
        assert(mapping_of(after) =~= mapping_of(before).insert(name@, value@));
    }
}

/// The fields of one submission: a mapping from field names to values that
/// holds the identifier, the secret and the expire flag. No name occurs
/// twice.
#[derive(Debug)]
pub struct FormFieldSet {
    entries: Vec<(String, String)>,
}

impl View for FormFieldSet {
    type V = Map<Seq<char>, Seq<char>>;

    closed spec fn view(&self) -> Map<Seq<char>, Seq<char>> {
        mapping_of(pairs_of(self.entries@))
    }
}

impl FormFieldSet {
    /// No name occurs twice among the entries, and the identifier, the
    /// secret and the expire flag are among them.
    #[verifier::type_invariant]
    closed spec fn well_formed(&self) -> bool {
        &&& distinct_names(pairs_of(self.entries@))
        &&& holds_credentials(mapping_of(pairs_of(self.entries@)))
    }

    /// The value of the field `name`, where the set holds such a field.
    pub fn get(&self, name: &str) -> (value: Option<&String>)
        ensures
            match value {
                Some(v) => self@.contains_key(name@) && self@[name@] == v@,
                None => !self@.contains_key(name@),
            },
    {
        proof {
            use_type_invariant(self);
        }
        let ghost all = pairs_of(self.entries@);
        let mut i: usize = 0;
        while i < self.entries.len()
            invariant
                i <= self.entries.len(),
                all == pairs_of(self.entries@),
                distinct_names(all),
                forall|j: int| 0 <= j < i ==> all[j].0 != name@,
            decreases self.entries.len() - i,
        {
            if text_is(&self.entries[i].0, name) {
                proof {
                    assert(all[i as int].0 == name@);
                    let k = index_of(all, name@)->0;
                    assert(k == i);
                }
                return Some(&self.entries[i].1);
            }
            i += 1;
        }
        None
    }

    /// The fields with their values, each name once.
    pub fn entries(&self) -> (pairs: &Vec<(String, String)>)
        ensures
            distinct_names(pairs_of(pairs@)),
            mapping_of(pairs_of(pairs@)) == self@,
            holds_credentials(self@),
    {
        proof {
            use_type_invariant(self);
        }
        &self.entries
    }
}

impl Clone for FormFieldSet {
    fn clone(&self) -> (copy: FormFieldSet)
        ensures
            copy@ == self@,
    {
        proof {
            use_type_invariant(self);
        }
        FormFieldSet { entries: copy_of(&self.entries) }
    }
}

/// The fields to submit: the hidden fields of `form` with the credentials
/// and the expire flag.
pub fn credential_fields(form: &ParsedForm, identifier: &str, secret: &str) -> (set: FormFieldSet)
    ensures
        set@ == submitted_fields(form@.hidden, identifier@, secret@),
{
    let mut entries: Vec<(String, String)> = Vec::new();
    let mut i: usize = 0;
    let ghost hidden = form@.hidden;
    assert(hidden.take(0) =~= Seq::empty());
    assert(mapping_of(pairs_of(entries@)) =~= Map::<Seq<char>, Seq<char>>::empty());
    while i < form.hidden.len()
        invariant
            i <= form.hidden.len(),
            hidden == form@.hidden,
            hidden.len() == form.hidden.len(),
            distinct_names(pairs_of(entries@)),
            mapping_of(pairs_of(entries@)) == last_wins(hidden.take(i as int)),
        decreases form.hidden.len() - i,
    {
        let pair = &form.hidden[i];
        proof {
            assert(hidden.take(i + 1).drop_last() =~= hidden.take(i as int));
            assert(hidden.take(i + 1).last() == (pair.0@, pair.1@));
        }
        put(&mut entries, pair.0.clone(), pair.1.clone());
        i += 1;
    }
    assert(hidden.take(i as int) =~= hidden);
    put(&mut entries, String::from_str("email"), String::from_str(identifier));
    put(&mut entries, String::from_str("pass"), String::from_str(secret));
    put(&mut entries, String::from_str("expire"), String::from_str("0"));
    FormFieldSet { entries }
}

/// What is submitted: the identifier, the secret and the expire flag under
/// their fixed names, and under every other name the value of the last
/// hidden field of that name.
pub proof fn lemma_submitted_fields(
    hidden: Pairs,
    identifier: Seq<char>,
    secret: Seq<char>,
    key: Seq<char>,
)
    ensures
        submitted_fields(hidden, identifier, secret)[identifier_field()] == identifier,
        submitted_fields(hidden, identifier, secret)[secret_field()] == secret,
        submitted_fields(hidden, identifier, secret)[expire_field()] == expire_value(),
        key != identifier_field() && key != secret_field() && key != expire_field() ==> (
        submitted_fields(hidden, identifier, secret).contains_key(key) <==> last_value(hidden, key)
            is Some),
        key != identifier_field() && key != secret_field() && key != expire_field() && last_value(
            hidden,
            key,
        ) is Some ==> submitted_fields(hidden, identifier, secret)[key] == last_value(
            hidden,
            key,
        )->0,
{
    reveal_strlit("email");
    reveal_strlit("pass");
    reveal_strlit("expire");
    assert(identifier_field().len() == 5 && secret_field().len() == 4 && expire_field().len()
        == 6);
    lemma_last_wins(hidden, key);
}

/// The value that a list of pairs gives a name, a later pair replacing an
/// earlier one, is the value of the last pair of that name.
pub proof fn lemma_last_wins(pairs: Pairs, key: Seq<char>)
    ensures
        last_wins(pairs).contains_key(key) <==> last_value(pairs, key) is Some,
        last_value(pairs, key) is Some ==> last_wins(pairs)[key] == last_value(pairs, key)->0,
    decreases pairs.len(),
{
    if pairs.len() > 0 {
        lemma_last_wins(pairs.drop_last(), key);
    }
}

} // verus!
