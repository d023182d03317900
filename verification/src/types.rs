//! The value model: tagged values with an integer/float number carrier,
//! byte strings, and table handles; the table and the interpreter state.
//!
//! Tables have reference identity: every table lives in the state's arena
//! and a `LuaValue::Table` holds its index there, so that two bindings to
//! one table observe each other's mutations.

use vstd::prelude::*;
use vstd::std_specs::cmp::PartialEqSpec;

use crate::LuaError;
use crate::float::{
    f64_eq, f64_is_nan, i64_to_f64, f64_to_i64, round_bits, is_nan_bits, eq_bits, f_round,
    f_from_i64, f_to_i64,
};

verus! {

/// The number carrier: an exact 64-bit integer or a binary64 float held as
/// its bit pattern.
#[derive(Debug, Clone, PartialEq, Eq)]
pub enum Number {
    /// A binary64 float, as its IEEE-754 bit pattern.
    Float(u64),
    Int(i64),
}

/// Specification view of a value: byte strings become sequences and table
/// handles become their arena index.
pub enum Val {
    Nil,
    Int(i64),
    Float(u64),
    Bool(bool),
    Str(Seq<u8>),
    Table(int),
}

impl View for Number {
    type V = Val;

    open spec fn view(&self) -> Val {
        match self {
            Number::Float(b) => Val::Float(*b),
            Number::Int(i) => Val::Int(*i),
        }
    }
}

/// A value of the language. Equality is structural for nil, booleans and
/// strings, numeric across the two number carriers, and by identity (arena
/// index) for tables; see `val_eq`.
#[derive(Debug, Clone, PartialEq, Eq)]
pub enum LuaValue {
    Nil,
    Number(Number),
    Boolean(bool),
    Str(Vec<u8>),
    Table(usize),
}

impl View for LuaValue {
    type V = Val;

    open spec fn view(&self) -> Val {
        match self {
            LuaValue::Nil => Val::Nil,
            LuaValue::Number(n) => n@,
            LuaValue::Boolean(b) => Val::Bool(*b),
            LuaValue::Str(s) => Val::Str(s@),
            LuaValue::Table(t) => Val::Table(*t as int),
        }
    }
}

/// An integer equals a float exactly when the float is finite, integral,
/// and converts back to that integer: the float's integer cast, converted
/// to a float again, must give the float back, and must equal the integer.
pub open spec fn int_float_eq(i: i64, f: u64) -> bool {
    &&& f64_eq(f, i64_to_f64(f64_to_i64(f)))
    &&& f64_to_i64(f) == i
}

/// Value equality: structural for nil, booleans and strings; numeric
/// across Int and Float by mathematical value; identity for tables.
pub open spec fn val_eq(a: Val, b: Val) -> bool {
    match (a, b) {
        (Val::Nil, Val::Nil) => true,
        (Val::Bool(x), Val::Bool(y)) => x == y,
        (Val::Str(x), Val::Str(y)) => x == y,
        (Val::Table(x), Val::Table(y)) => x == y,
        (Val::Int(x), Val::Int(y)) => x == y,
        (Val::Float(x), Val::Float(y)) => f64_eq(x, y),
        (Val::Int(x), Val::Float(y)) => int_float_eq(x, y),
        (Val::Float(x), Val::Int(y)) => int_float_eq(y, x),
        _ => false,
    }
}

/// Exec equality of byte strings, proved to agree with view equality.
pub fn bytes_eq(a: &Vec<u8>, b: &Vec<u8>) -> (r: bool)
    ensures
        r == (a@ == b@),
{
    let r = a == b;
    proof {
        if r {
            assert(a@ =~= b@);
        } else {
            if a@ == b@ {
                assert(a.eq_spec(b));
            }
        }
    }
    r
}

/// Exec value equality, proved against `val_eq`. This is the equality of
/// the `==` operator of the language; it does no string coercion.
pub fn lua_equals(a: &LuaValue, b: &LuaValue) -> (r: bool)
    ensures
        r == val_eq(a@, b@),
{
    match (a, b) {
        (LuaValue::Nil, LuaValue::Nil) => true,
        (LuaValue::Boolean(x), LuaValue::Boolean(y)) => x == y,
        (LuaValue::Str(x), LuaValue::Str(y)) => bytes_eq(x, y),
        (LuaValue::Table(x), LuaValue::Table(y)) => x == y,
        (LuaValue::Number(x), LuaValue::Number(y)) => match (x, y) {
            (Number::Int(i), Number::Int(j)) => i == j,
            (Number::Float(f), Number::Float(g)) => eq_bits(*f, *g),
            (Number::Int(i), Number::Float(f)) => int_float_eq_exec(*i, *f),
            (Number::Float(f), Number::Int(i)) => int_float_eq_exec(*i, *f),
        },
        _ => false,
    }
}

/// Exec form of `int_float_eq`.
fn int_float_eq_exec(i: i64, f: u64) -> (r: bool)
    ensures
        r == int_float_eq(i, f),
{
    let c = f_to_i64(f);
    eq_bits(f, f_from_i64(c)) && c == i
}

/// A float key is normalized to an integer key exactly when rounding it
/// changes nothing, i.e. it already carries an integral value.
pub open spec fn float_is_integral(b: u64) -> bool {
    f64_eq(round_bits(b), b)
}

/// Key normalization: a float key with an integral value is replaced by
/// the corresponding integer key; everything else is kept.
pub open spec fn norm_key(k: Val) -> Val {
    match k {
        Val::Float(b) => if float_is_integral(b) {
            Val::Int(f64_to_i64(round_bits(b)))
        } else {
            k
        },
        _ => k,
    }
}

/// Exec key normalization, proved against `norm_key`; requires a non-NaN
/// float (NaN keys are rejected before normalization).
pub fn normalize_key(k: &LuaValue) -> (r: LuaValue)
    ensures
        r@ == norm_key(k@),
{
    match k {
        LuaValue::Number(Number::Float(b)) => {
            let rd = f_round(*b);
            if eq_bits(rd, *b) {
                LuaValue::Number(Number::Int(f_to_i64(rd)))
            } else {
                dup_value(k)
            }
        },
        _ => dup_value(k),
    }
}

/// A copy of a value that provably carries the same view. Tables are
/// handles: copying the handle shares the table.
pub fn dup_value(v: &LuaValue) -> (r: LuaValue)
    ensures
        r@ == v@,
{
    match v {
        LuaValue::Nil => LuaValue::Nil,
        LuaValue::Number(Number::Int(i)) => LuaValue::Number(Number::Int(*i)),
        LuaValue::Number(Number::Float(b)) => LuaValue::Number(Number::Float(*b)),
        LuaValue::Boolean(b) => LuaValue::Boolean(*b),
        LuaValue::Str(s) => {
            let t = s.clone();
            proof {
                assert(t@ =~= s@);
            }
            LuaValue::Str(t)
        },
        LuaValue::Table(t) => LuaValue::Table(*t),
    }
}

impl Number {
    /// Widens to a float: the bit pattern of the number's float value.
    pub fn to_float(&self) -> (r: u64)
        ensures
            r == num_to_float(self@),
    {
        match self {
            Number::Float(b) => *b,
            Number::Int(i) => f_from_i64(*i),
        }
    }

    /// Narrows to an integer, truncating a float toward zero with the
    /// saturating cast semantics of `f64_to_i64`.
    pub fn to_int(&self) -> (r: i64)
        ensures
            r == num_to_int(self@),
    {
        match self {
            Number::Float(b) => f_to_i64(*b),
            Number::Int(i) => *i,
        }
    }
}

/// The float value (bit pattern) a number widens to.
pub open spec fn num_to_float(n: Val) -> u64
    recommends
        n is Int || n is Float,
{
    match n {
        Val::Float(b) => b,
        Val::Int(i) => i64_to_f64(i),
        _ => 0,
    }
}

/// The view of an evaluation result: the value's view, or the error's
/// kind.
pub open spec fn res_view(r: Result<LuaValue, LuaError>) -> Result<Val, crate::ErrKind> {
    match r {
        Ok(v) => Ok(v@),
        Err(e) => Err(e@),
    }
}

/// The integer a number narrows to.
pub open spec fn num_to_int(n: Val) -> i64
    recommends
        n is Int || n is Float,
{
    match n {
        Val::Float(b) => f64_to_i64(b),
        Val::Int(i) => i,
        _ => 0,
    }
}

} // verus!

verus! {

/// Specification view of a table: its identity, the dense sequence part,
/// and the key/value map for everything else.
#[verifier::ext_equal]
pub struct TableM {
    pub id: int,
    pub arr: Seq<Val>,
    pub map: Map<Val, Val>,
}

/// A key may be stored exactly when it is neither nil nor a NaN float.
pub open spec fn key_valid(k: Val) -> bool {
    match k {
        Val::Nil => false,
        Val::Float(b) => !f64_is_nan(b),
        _ => true,
    }
}

/// The map an association list denotes; later entries win, though the
/// table keeps its keys unique.
pub open spec fn assoc_map(s: Seq<(LuaValue, LuaValue)>) -> Map<Val, Val>
    decreases s.len(),
{
    if s.len() == 0 {
        Map::empty()
    } else {
        assoc_map(s.drop_last()).insert(s.last().0@, s.last().1@)
    }
}

/// No two entries of the association list carry the same key.
pub open spec fn keys_unique(s: Seq<(LuaValue, LuaValue)>) -> bool {
    forall|i: int, j: int| 0 <= i < j < s.len() ==> s[i].0@ != s[j].0@
}

/// Map lookup with nil for a missing key.
pub open spec fn map_get_m(m: Map<Val, Val>, k: Val) -> Val {
    if m.contains_key(k) {
        m[k]
    } else {
        Val::Nil
    }
}

/// What setting a key in the map part does: assigning nil removes the
/// entry, anything else inserts or overwrites.
pub open spec fn map_set_m(t: TableM, k: Val, v: Val) -> TableM {
    if v == Val::Nil {
        TableM { map: t.map.remove(k), ..t }
    } else {
        TableM { map: t.map.insert(k, v), ..t }
    }
}

/// What `set` does to the table model: the key is normalized; an integer
/// key inside `[1, len]` overwrites the sequence, at `len + 1` it appends
/// (even nil occupies the slot), and every other key goes to the map.
pub open spec fn table_set_m(t: TableM, k: Val, v: Val) -> TableM {
    let nk = norm_key(k);
    match nk {
        Val::Int(i) => if 1 <= i && i <= t.arr.len() {
            TableM { arr: t.arr.update(i - 1, v), ..t }
        } else if i == t.arr.len() + 1 {
            TableM { arr: t.arr.push(v), ..t }
        } else {
            map_set_m(t, nk, v)
        },
        _ => map_set_m(t, nk, v),
    }
}

/// What `get` returns: nil for an invalid key; after normalization an
/// integer key inside `[1, len]` reads the sequence and every other key
/// reads the map, with nil for a missing entry.
pub open spec fn table_get_m(t: TableM, k: Val) -> Val {
    if !key_valid(k) {
        Val::Nil
    } else {
        let nk = norm_key(k);
        match nk {
            Val::Int(i) => if 1 <= i && i <= t.arr.len() {
                t.arr[i - 1]
            } else {
                map_get_m(t.map, nk)
            },
            _ => map_get_m(t.map, nk),
        }
    }
}

proof fn lemma_assoc_contains(s: Seq<(LuaValue, LuaValue)>, k: Val)
    ensures
        assoc_map(s).contains_key(k) <==> exists|i: int| 0 <= i < s.len() && s[i].0@ == k,
    decreases s.len(),
{
    if s.len() > 0 {
        lemma_assoc_contains(s.drop_last(), k);
        if s.last().0@ == k {
            assert(s[s.len() - 1].0@ == k);
        } else {
            if exists|i: int| 0 <= i < s.len() - 1 && s.drop_last()[i].0@ == k {
                let i = choose|i: int| 0 <= i < s.len() - 1 && s.drop_last()[i].0@ == k;
                assert(s[i].0@ == k);
            }
            if exists|i: int| 0 <= i < s.len() && s[i].0@ == k {
                let i = choose|i: int| 0 <= i < s.len() && s[i].0@ == k;
                assert(0 <= i < s.len() - 1 && s.drop_last()[i].0@ == k);
            }
        }
    }
}

proof fn lemma_assoc_at(s: Seq<(LuaValue, LuaValue)>, i: int)
    requires
        keys_unique(s),
        0 <= i < s.len(),
    ensures
        assoc_map(s).contains_key(s[i].0@),
        assoc_map(s)[s[i].0@] == s[i].1@,
    decreases s.len(),
{
    if i == s.len() - 1 {
    } else {
        assert(keys_unique(s.drop_last()));
        lemma_assoc_at(s.drop_last(), i);
        assert(s.drop_last()[i] == s[i]);
        assert(s[i].0@ != s[s.len() - 1].0@);
    }
}

proof fn lemma_assoc_update(s: Seq<(LuaValue, LuaValue)>, i: int, p: (LuaValue, LuaValue))
    requires
        keys_unique(s),
        0 <= i < s.len(),
        p.0@ == s[i].0@,
    ensures
        assoc_map(s.update(i, p)) == assoc_map(s).insert(p.0@, p.1@),
        keys_unique(s.update(i, p)),
    decreases s.len(),
{
    let su = s.update(i, p);
    assert forall|x: int, y: int| 0 <= x < y < su.len() implies su[x].0@ != su[y].0@ by {
        assert(s[x].0@ != s[y].0@);
    }
    if i == s.len() - 1 {
        assert(su.drop_last() =~= s.drop_last());
        assert(assoc_map(su) == assoc_map(s.drop_last()).insert(p.0@, p.1@));
        assert(assoc_map(s.drop_last()).insert(s.last().0@, s.last().1@).insert(p.0@, p.1@)
            =~= assoc_map(s.drop_last()).insert(p.0@, p.1@));
    } else {
        assert(keys_unique(s.drop_last()));
        lemma_assoc_update(s.drop_last(), i, p);
        assert(su.drop_last() =~= s.drop_last().update(i, p));
        assert(su.last() == s.last());
        assert(s[i].0@ != s[s.len() - 1].0@);
        assert(assoc_map(s.drop_last()).insert(p.0@, p.1@).insert(s.last().0@, s.last().1@)
            =~= assoc_map(s.drop_last()).insert(s.last().0@, s.last().1@).insert(p.0@, p.1@));
    }
}

proof fn lemma_assoc_remove(s: Seq<(LuaValue, LuaValue)>, i: int)
    requires
        keys_unique(s),
        0 <= i < s.len(),
    ensures
        assoc_map(s.remove(i)) == assoc_map(s).remove(s[i].0@),
        keys_unique(s.remove(i)),
    decreases s.len(),
{
    let sr = s.remove(i);
    assert forall|x: int, y: int| 0 <= x < y < sr.len() implies sr[x].0@ != sr[y].0@ by {
        let xx = if x < i { x } else { x + 1 };
        let yy = if y < i { y } else { y + 1 };
        assert(sr[x] == s[xx] && sr[y] == s[yy]);
        assert(s[xx].0@ != s[yy].0@);
    }
    if i == s.len() - 1 {
        assert(sr =~= s.drop_last());
        lemma_assoc_contains(s.drop_last(), s[i].0@);
        assert forall|j: int| 0 <= j < s.len() - 1 implies s.drop_last()[j].0@ != s[i].0@ by {
            assert(s[j].0@ != s[i].0@);
        }
        assert(!assoc_map(s.drop_last()).contains_key(s[i].0@));
        assert(assoc_map(s.drop_last()) =~= assoc_map(s).remove(s[i].0@));
    } else {
        assert(keys_unique(s.drop_last()));
        lemma_assoc_remove(s.drop_last(), i);
        assert(sr.drop_last() =~= s.drop_last().remove(i));
        assert(sr.last() == s.last());
        assert(s[i].0@ != s[s.len() - 1].0@);
        assert(assoc_map(s.drop_last()).remove(s[i].0@).insert(s.last().0@, s.last().1@)
            =~= assoc_map(s.drop_last()).insert(s.last().0@, s.last().1@).remove(s[i].0@));
    }
}

} // verus!

verus! {

/// A table: a dense 1-indexed sequence part and an association list for
/// all other keys. Stored keys are normalized, never nil and never NaN;
/// the list's keys are unique. The table's identity (`ref_id`) is its
/// index in the state's arena.
#[derive(Debug)]
pub struct LuaTable {
    pub ref_id: usize,
    vector: Vec<LuaValue>,
    map: Vec<(LuaValue, LuaValue)>,
}

impl View for LuaTable {
    type V = TableM;

    closed spec fn view(&self) -> TableM {
        TableM {
            id: self.ref_id as int,
            arr: self.vector@.map_values(|x: LuaValue| x@),
            map: assoc_map(self.map@),
        }
    }
}

/// Exec equality of stored-key views: structural on the `Val` view (floats
/// by bit pattern, numbers of different carriers unequal).
fn key_eq_exec(a: &LuaValue, b: &LuaValue) -> (r: bool)
    ensures
        r == (a@ == b@),
{
    match (a, b) {
        (LuaValue::Nil, LuaValue::Nil) => true,
        (LuaValue::Boolean(x), LuaValue::Boolean(y)) => x == y,
        (LuaValue::Str(x), LuaValue::Str(y)) => bytes_eq(x, y),
        (LuaValue::Table(x), LuaValue::Table(y)) => x == y,
        (LuaValue::Number(Number::Int(i)), LuaValue::Number(Number::Int(j))) => i == j,
        (LuaValue::Number(Number::Float(f)), LuaValue::Number(Number::Float(g))) => f == g,
        _ => false,
    }
}

impl LuaTable {
    /// The table's private invariant: its association list has unique keys.
    pub closed spec fn wf(&self) -> bool {
        keys_unique(self.map@)
    }

    /// An empty table with the given identity.
    pub fn new(id: usize) -> (r: LuaTable)
        ensures
            r.wf(),
            r@ == (TableM { id: id as int, arr: Seq::<Val>::empty(), map: Map::<Val, Val>::empty() }),
    {
        let r = LuaTable { ref_id: id, vector: Vec::new(), map: Vec::new() };
        proof {
            assert(r@.arr =~= Seq::<Val>::empty());
            assert(r@.map =~= Map::<Val, Val>::empty());
        }
        r
    }

    /// An empty table with room reserved for `capacity` sequence entries.
    pub fn with_capacity(id: usize, capacity: usize) -> (r: LuaTable)
        ensures
            r.wf(),
            r@ == (TableM { id: id as int, arr: Seq::<Val>::empty(), map: Map::<Val, Val>::empty() }),
    {
        let r = LuaTable { ref_id: id, vector: Vec::with_capacity(capacity), map: Vec::new() };
        proof {
            assert(r@.arr =~= Seq::<Val>::empty());
            assert(r@.map =~= Map::<Val, Val>::empty());
        }
        r
    }

    /// The length of the sequence part, the border used by the length
    /// operator on tables.
    pub fn sequence_border(&self) -> (r: usize)
        ensures
            r == self@.arr.len(),
    {
        self.vector.len()
    }

    /// The position of the entry whose key view equals `key`'s, if any.
    fn map_find(&self, key: &LuaValue) -> (r: Option<usize>)
        ensures
            match r {
                Some(i) => i < self.map@.len() && self.map@[i as int].0@ == key@,
                None => forall|i: int| 0 <= i < self.map@.len() ==> self.map@[i].0@ != key@,
            },
    {
        let mut i: usize = 0;
        while i < self.map.len()
            invariant
                i <= self.map@.len(),
                forall|j: int| 0 <= j < i ==> self.map@[j].0@ != key@,
            decreases self.map@.len() - i,
        {
            if key_eq_exec(&self.map[i].0, key) {
                return Some(i);
            }
            i = i + 1;
        }
        None
    }

    /// Map-part lookup: the stored value, or nil when the key is absent.
    fn map_get(&self, key: &LuaValue) -> (r: LuaValue)
        requires
            self.wf(),
        ensures
            r@ == map_get_m(self@.map, key@),
    {
        match self.map_find(key) {
            Some(i) => {
                proof {
                    lemma_assoc_at(self.map@, i as int);
                }
                dup_value(&self.map[i].1)
            },
            None => {
                proof {
                    lemma_assoc_contains(self.map@, key@);
                }
                LuaValue::Nil
            },
        }
    }

    /// Map-part update: assigning nil removes the entry, anything else
    /// inserts or overwrites.
    fn map_set(&mut self, key: &LuaValue, value: &LuaValue)
        requires
            old(self).wf(),
        ensures
            final(self).wf(),
            final(self)@ == map_set_m(old(self)@, key@, value@),
    {
        let found = self.map_find(key);
        match (found, value) {
            (Some(i), LuaValue::Nil) => {
                proof {
                    lemma_assoc_remove(self.map@, i as int);
                }
                self.map.remove(i);
            },
            (None, LuaValue::Nil) => {
                proof {
                    lemma_assoc_contains(self.map@, key@);
                    assert(assoc_map(self.map@).remove(key@) =~= assoc_map(self.map@));
                }
            },
            (Some(i), _) => {
                let p = (dup_value(key), dup_value(value));
                proof {
                    lemma_assoc_update(self.map@, i as int, p);
                }
                self.map.set(i, p);
            },
            (None, _) => {
                let p = (dup_value(key), dup_value(value));
                self.map.push(p);
                proof {
                    assert(self.map@.drop_last() =~= old(self).map@);
                    assert(self.map@.last() == p);
                }
            },
        }
    }

    /// Sets `key` to `value` per the table invariants: nil and NaN keys
    /// are rejected with an `IndexError`; an integral float key is stored
    /// under the integer key; an integer key inside `[1, len + 1]` goes to
    /// the sequence part (appending at `len + 1`); all other keys go to
    /// the map, where assigning nil removes the entry.
    pub fn set(&mut self, key: &LuaValue, value: &LuaValue) -> (r: Result<(), LuaError>)
        requires
            old(self).wf(),
        ensures
            final(self).wf(),
            r is Ok <==> key_valid(key@),
            r is Ok ==> final(self)@ == table_set_m(old(self)@, key@, value@),
            r is Err ==> final(self)@ == old(self)@ && r->Err_0@ is IndexErr,
    {
        match key {
            LuaValue::Nil => Err(LuaError::IndexError("using nil as a table index")),
            LuaValue::Number(Number::Float(b)) if is_nan_bits(*b) => {
                Err(LuaError::IndexError("using NaN as a table index"))
            },
            _ => {
                let nk = normalize_key(key);
                match &nk {
                    LuaValue::Number(Number::Int(i)) => {
                        let i = *i;
                        let len = self.vector.len();
                        if i >= 1 && (i as u64) <= (len as u64) {
                            let idx = (i - 1) as usize;
                            self.vector.set(idx, dup_value(value));
                            proof {
                                assert(self@.arr =~= old(self)@.arr.update(i - 1, value@));
                            }
                        } else if i >= 1 && (i as u64) - 1 == (len as u64) {
                            self.vector.push(dup_value(value));
                            proof {
                                assert(self@.arr =~= old(self)@.arr.push(value@));
                            }
                        } else {
                            self.map_set(&nk, value);
                        }
                        Ok(())
                    },
                    _ => {
                        self.map_set(&nk, value);
                        Ok(())
                    },
                }
            },
        }
    }

    /// Reads the value under `key`: nil for nil or NaN keys; symmetric
    /// normalization; integer keys inside `[1, len]` read the sequence
    /// part, all other keys the map, with nil for a missing entry.
    pub fn get(&self, key: &LuaValue) -> (r: LuaValue)
        requires
            self.wf(),
        ensures
            r@ == table_get_m(self@, key@),
    {
        match key {
            LuaValue::Nil => LuaValue::Nil,
            LuaValue::Number(Number::Float(b)) if is_nan_bits(*b) => LuaValue::Nil,
            _ => {
                let nk = normalize_key(key);
                match &nk {
                    LuaValue::Number(Number::Int(i)) => {
                        let i = *i;
                        let len = self.vector.len();
                        if i >= 1 && (i as u64) <= (len as u64) {
                            dup_value(&self.vector[(i - 1) as usize])
                        } else {
                            self.map_get(&nk)
                        }
                    },
                    _ => self.map_get(&nk),
                }
            },
        }
    }

    /// Whether the map part holds the given byte-string key; used for
    /// scope lookup.
    pub fn contains_key(&self, key: &Vec<u8>) -> (r: bool)
        requires
            self.wf(),
        ensures
            r == self@.map.contains_key(Val::Str(key@)),
    {
        let k = LuaValue::Str(key.clone());
        proof {
            assert(k@ == Val::Str(key@));
            lemma_assoc_contains(self.map@, k@);
        }
        match self.map_find(&k) {
            Some(_) => true,
            None => false,
        }
    }

    /// Convenience write under a byte-string key, routed to the map part.
    pub fn set_string(&mut self, key: Vec<u8>, value: &LuaValue)
        requires
            old(self).wf(),
        ensures
            final(self).wf(),
            final(self)@ == map_set_m(old(self)@, Val::Str(key@), value@),
    {
        self.map_set(&LuaValue::Str(key), value);
    }

    /// Convenience read under a byte-string key, routed to the map part.
    pub fn get_string(&self, key: Vec<u8>) -> (r: LuaValue)
        requires
            self.wf(),
        ensures
            r@ == map_get_m(self@.map, Val::Str(key@)),
    {
        self.map_get(&LuaValue::Str(key))
    }
}

} // verus!

verus! {

/// Specification view of the interpreter state: the arena of all tables
/// ever created (index = identity) and the stack of scope-table ids,
/// innermost scope last.
#[verifier::ext_equal]
pub struct StateM {
    pub tables: Seq<TableM>,
    pub scopes: Seq<int>,
}

/// A value is well formed for an arena of `n` tables when any table handle
/// it carries points into the arena.
pub open spec fn val_wf(v: Val, n: int) -> bool {
    match v {
        Val::Table(t) => 0 <= t < n,
        _ => true,
    }
}

/// All keys and values a table holds are well formed for the arena size.
pub open spec fn table_vals_wf(t: TableM, n: int) -> bool {
    &&& forall|i: int| 0 <= i < t.arr.len() ==> val_wf(#[trigger] t.arr[i], n)
    &&& forall|k: Val| #[trigger] t.map.contains_key(k) ==> val_wf(k, n) && val_wf(t.map[k], n)
}

/// State well-formedness: at least the base scope exists, scope ids point
/// into the arena, each table sits at the index equal to its identity, and
/// every stored value points into the arena.
pub open spec fn state_wf(s: StateM) -> bool {
    &&& 1 <= s.scopes.len()
    &&& forall|i: int| 0 <= i < s.scopes.len() ==> 0 <= #[trigger] s.scopes[i] < s.tables.len()
    &&& forall|i: int|
        0 <= i < s.tables.len() ==> (#[trigger] s.tables[i]).id == i && table_vals_wf(
            s.tables[i],
            s.tables.len() as int,
        )
}

/// The byte spelling of the reserved environment name `_ENV`.
pub open spec fn env_name() -> Seq<u8> {
    seq![95u8, 69u8, 78u8, 86u8]
}

/// The reserved environment name as a byte string.
pub fn env_key() -> (r: Vec<u8>)
    ensures
        r@ == env_name(),
{
    let r = vec![95u8, 69u8, 78u8, 86u8];
    proof {
        assert(r@ =~= env_name());
    }
    r
}

/// Name resolution over the scope stack, innermost (last) outward: the id
/// of the first scope table whose map holds the name.
pub open spec fn resolve_in(tables: Seq<TableM>, scopes: Seq<int>, n: Seq<u8>) -> Option<int>
    decreases scopes.len(),
{
    if scopes.len() == 0 {
        None
    } else if tables[scopes.last()].map.contains_key(Val::Str(n)) {
        Some(scopes.last())
    } else {
        resolve_in(tables, scopes.drop_last(), n)
    }
}

/// The interpreter state: the arena of tables and the scope stack. The
/// global table is created at birth with identity 0 and bound under
/// `_ENV` in the base scope.
#[derive(Debug)]
pub struct LuaState {
    tables: Vec<LuaTable>,
    scope_stack: Vec<usize>,
}

impl View for LuaState {
    type V = StateM;

    closed spec fn view(&self) -> StateM {
        StateM {
            tables: self.tables@.map_values(|t: LuaTable| t@),
            scopes: self.scope_stack@.map_values(|i: usize| i as int),
        }
    }
}

/// Contained-value well-formedness is monotone in the arena size.
pub proof fn lemma_table_vals_wf_mono(t: TableM, n: int, m: int)
    requires
        table_vals_wf(t, n),
        n <= m,
    ensures
        table_vals_wf(t, m),
{
    assert forall|i: int| 0 <= i < t.arr.len() implies val_wf(#[trigger] t.arr[i], m) by {
        assert(val_wf(t.arr[i], n));
    }
    assert forall|k: Val| #[trigger] t.map.contains_key(k) implies val_wf(k, m) && val_wf(
        t.map[k],
        m,
    ) by {
        assert(t.map.contains_key(k));
        assert(val_wf(k, n) && val_wf(t.map[k], n));
    }
}

/// An empty table holds nothing, so its contents are well formed for any
/// arena size.
pub proof fn lemma_empty_table_vals_wf(id: int, n: int)
    ensures
        table_vals_wf(
            TableM { id: id, arr: Seq::<Val>::empty(), map: Map::<Val, Val>::empty() },
            n,
        ),
{
}

/// A map-part write with a well-formed key and value keeps the table's
/// contents well formed.
pub proof fn lemma_map_set_vals_wf(t: TableM, k: Val, v: Val, n: int)
    requires
        table_vals_wf(t, n),
        val_wf(k, n),
        val_wf(v, n),
    ensures
        table_vals_wf(map_set_m(t, k, v), n),
{
    let t2 = map_set_m(t, k, v);
    assert forall|k2: Val| #[trigger] t2.map.contains_key(k2) implies val_wf(k2, n) && val_wf(
        t2.map[k2],
        n,
    ) by {
        if v == Val::Nil {
            assert(t.map.contains_key(k2) && t2.map[k2] == t.map[k2]);
        } else if k2 == k {
            assert(t2.map[k2] == v);
        } else {
            assert(t.map.contains_key(k2) && t2.map[k2] == t.map[k2]);
        }
    }
}

/// A full table write with a well-formed key and value keeps the table's
/// contents well formed.
pub proof fn lemma_table_set_vals_wf(t: TableM, k: Val, v: Val, n: int)
    requires
        table_vals_wf(t, n),
        val_wf(k, n),
        val_wf(v, n),
    ensures
        table_vals_wf(table_set_m(t, k, v), n),
{
    let nk = norm_key(k);
    assert(val_wf(nk, n));
    let t2 = table_set_m(t, k, v);
    match nk {
        Val::Int(i) => {
            if 1 <= i && i <= t.arr.len() {
                assert forall|j: int| 0 <= j < t2.arr.len() implies val_wf(
                    #[trigger] t2.arr[j],
                    n,
                ) by {
                    if j != i - 1 {
                        assert(t2.arr[j] == t.arr[j]);
                    }
                }
            } else if i == t.arr.len() + 1 {
                assert forall|j: int| 0 <= j < t2.arr.len() implies val_wf(
                    #[trigger] t2.arr[j],
                    n,
                ) by {
                    if j < t.arr.len() {
                        assert(t2.arr[j] == t.arr[j]);
                    }
                }
            } else {
                lemma_map_set_vals_wf(t, nk, v, n);
            }
        },
        _ => {
            lemma_map_set_vals_wf(t, nk, v, n);
        },
    }
}

impl LuaState {
    /// The state invariant: the model is well formed and each table's
    /// association list has unique keys.
    pub closed spec fn wf(&self) -> bool {
        &&& state_wf(self@)
        &&& forall|i: int| 0 <= i < self.tables@.len() ==> (#[trigger] self.tables@[i]).wf()
    }

    /// The state invariant gives model well-formedness.
    pub proof fn wf_model(&self)
        requires
            self.wf(),
        ensures
            state_wf(self@),
    {
    }

    /// A fresh state: the global table (identity 0), one base scope
    /// (identity 1) holding `_ENV` bound to the global table.
    pub fn new() -> (r: LuaState)
        ensures
            r.wf(),
            r@.scopes == seq![1int],
            r@.tables.len() == 2,
            r@.tables[0] == (TableM {
                id: 0,
                arr: Seq::<Val>::empty(),
                map: Map::<Val, Val>::empty(),
            }),
            r@.tables[1].id == 1,
            r@.tables[1].arr == Seq::<Val>::empty(),
            r@.tables[1].map == Map::<Val, Val>::empty().insert(
                Val::Str(env_name()),
                Val::Table(0),
            ),
    {
        let global = LuaTable::new(0);
        let mut base = LuaTable::new(1);
        base.set_string(env_key(), &LuaValue::Table(0));
        let ghost g0 = global@;
        let ghost b0 = base@;
        let ghost gwf = global.wf();
        let mut tables: Vec<LuaTable> = Vec::new();
        tables.push(global);
        tables.push(base);
        let mut scope_stack: Vec<usize> = Vec::new();
        scope_stack.push(1);
        let r = LuaState { tables, scope_stack };
        proof {
            assert(r@.scopes =~= seq![1int]);
            assert(r@.tables =~= seq![g0, b0]);
            assert(b0.map == Map::<Val, Val>::empty().insert(Val::Str(env_name()), Val::Table(0)));
            lemma_empty_table_vals_wf(0, 2);
            assert(table_vals_wf(b0, 2)) by {
                assert forall|k: Val| #[trigger] b0.map.contains_key(k) implies val_wf(k, 2)
                    && val_wf(b0.map[k], 2) by {
                    assert(k == Val::Str(env_name()));
                    assert(b0.map[k] == Val::Table(0));
                }
            }
            assert(state_wf(r@)) by {
                assert forall|i: int| 0 <= i < r@.tables.len() implies (#[trigger] r@.tables[i]).id
                    == i && table_vals_wf(r@.tables[i], r@.tables.len() as int) by {
                    if i == 0 {
                        assert(r@.tables[i] == g0);
                    } else {
                        assert(r@.tables[i] == b0);
                    }
                }
            }
            assert forall|i: int| 0 <= i < r.tables@.len() implies (#[trigger] r.tables@[i]).wf()
                by {
                if i == 0 {
                    assert(r.tables@[i]@ == g0);
                }
            }
        }
        r
    }

    /// The identity the next table will receive: the arena size so far,
    /// monotonic and zero-based.
    pub fn get_ref_id(&self) -> (r: usize)
        ensures
            r == self@.tables.len(),
    {
        self.tables.len()
    }

    /// Creates a fresh empty table in the arena, reserving room for
    /// `capacity` sequence entries, and returns its identity.
    pub fn alloc_table(&mut self, capacity: usize) -> (id: usize)
        requires
            old(self).wf(),
        ensures
            final(self).wf(),
            id == old(self)@.tables.len(),
            final(self)@.scopes == old(self)@.scopes,
            final(self)@.tables == old(self)@.tables.push(
                TableM { id: id as int, arr: Seq::<Val>::empty(), map: Map::<Val, Val>::empty() },
            ),
    {
        let id = self.tables.len();
        let t = LuaTable::with_capacity(id, capacity);
        self.tables.push(t);
        proof {
            assert(self@.tables =~= old(self)@.tables.push(
                TableM { id: id as int, arr: Seq::<Val>::empty(), map: Map::<Val, Val>::empty() },
            ));
            assert(self@.scopes =~= old(self)@.scopes);
            let n = self@.tables.len() as int;
            assert forall|i: int| 0 <= i < n implies (#[trigger] self@.tables[i]).id == i
                && table_vals_wf(self@.tables[i], n) by {
                if i < n - 1 {
                    assert(self@.tables[i] == old(self)@.tables[i]);
                    lemma_table_vals_wf_mono(old(self)@.tables[i], n - 1, n);
                } else {
                    lemma_empty_table_vals_wf(i, n);
                }
            }
            assert forall|i: int| 0 <= i < self@.scopes.len() implies 0 <= #[trigger] self@.scopes[i]
                < n by {
                assert(self@.scopes[i] == old(self)@.scopes[i]);
            }
            assert forall|i: int| 0 <= i < self.tables@.len() implies (
            #[trigger] self.tables@[i]).wf() by {
                if i < self.tables@.len() - 1 {
                    assert(self.tables@[i] == old(self).tables@[i]);
                }
            }
        }
        id
    }

    /// Walks the scope stack from the innermost scope outward and returns
    /// the identity of the first scope table that holds `name`.
    pub fn resolve_name(&self, name: &Vec<u8>) -> (r: Option<usize>)
        requires
            self.wf(),
        ensures
            match r {
                Some(sid) => resolve_in(self@.tables, self@.scopes, name@) == Some(sid as int)
                    && sid < self@.tables.len(),
                None => resolve_in(self@.tables, self@.scopes, name@) is None,
            },
    {
        let n = self.scope_stack.len();
        proof {
            assert(self@.scopes.take(n as int) =~= self@.scopes);
        }
        let mut i: usize = n;
        while i > 0
            invariant
                self.wf(),
                i <= n,
                n == self@.scopes.len(),
                n == self.scope_stack@.len(),
                resolve_in(self@.tables, self@.scopes, name@) == resolve_in(
                    self@.tables,
                    self@.scopes.take(i as int),
                    name@,
                ),
            decreases i,
        {
            proof {
                assert(self@.scopes.take(i as int).last() == self@.scopes[i - 1]);
                assert(self@.scopes.take(i as int).drop_last() =~= self@.scopes.take(i - 1));
                assert(self@.scopes[i - 1] == self.scope_stack@[i - 1] as int);
                assert(0 <= self@.scopes[i - 1] < self@.tables.len());
            }
            let sid = self.scope_stack[i - 1];
            proof {
                assert(self.tables@[sid as int].wf());
                assert(self.tables@[sid as int]@ == self@.tables[sid as int]);
            }
            if self.tables[sid].contains_key(name) {
                return Some(sid);
            }
            i = i - 1;
        }
        proof {
            assert(self@.scopes.take(0) =~= Seq::<int>::empty());
        }
        None
    }

    /// The mutable-walk twin of `resolve_name`; the state is untouched.
    pub fn resolve_name_mut(&mut self, name: &Vec<u8>) -> (r: Option<usize>)
        requires
            old(self).wf(),
        ensures
            *final(self) == *old(self),
            match r {
                Some(sid) => resolve_in(old(self)@.tables, old(self)@.scopes, name@) == Some(
                    sid as int,
                ) && sid < old(self)@.tables.len(),
                None => resolve_in(old(self)@.tables, old(self)@.scopes, name@) is None,
            },
    {
        self.resolve_name(name)
    }

    /// A shared borrow of the innermost scope table.
    pub fn get_local_scope(&self) -> (r: Option<&LuaTable>)
        requires
            self.wf(),
        ensures
            match r {
                Some(t) => self@.scopes.len() >= 1 && t@ == self@.tables[self@.scopes.last()]
                    && t.wf(),
                None => self@.scopes.len() == 0,
            },
    {
        if self.scope_stack.len() == 0 {
            None
        } else {
            proof {
                assert(self@.scopes.len() == self.scope_stack@.len());
                assert(self@.scopes[self@.scopes.len() - 1] == self.scope_stack@[
                    self.scope_stack@.len() - 1] as int);
                assert(0 <= self@.scopes[self@.scopes.len() - 1] < self@.tables.len());
            }
            let sid = self.scope_stack[self.scope_stack.len() - 1];
            proof {
                assert(self.tables@[sid as int].wf());
                assert(self.tables@[sid as int]@ == self@.tables[sid as int]);
            }
            Some(&self.tables[sid])
        }
    }

    /// A mutable borrow of the innermost scope table; whatever the caller
    /// writes through it lands at that scope's slot in the arena. The
    /// caller is responsible for re-establishing the state invariant.
    pub fn get_mutable_local_scope(&mut self) -> (r: &mut LuaTable)
        requires
            old(self).wf(),
        ensures
            (*r)@ == old(self)@.tables[old(self)@.scopes.last()],
            r.wf(),
            final(self)@.scopes == old(self)@.scopes,
            final(self)@.tables == old(self)@.tables.update(
                old(self)@.scopes.last(),
                final(r)@,
            ),
    {
        proof {
            assert(self@.scopes.len() == self.scope_stack@.len());
            assert(self@.scopes[self@.scopes.len() - 1] == self.scope_stack@[
                self.scope_stack@.len() - 1] as int);
            assert(0 <= self@.scopes[self@.scopes.len() - 1] < self@.tables.len());
            assert(self@.tables.len() == self.tables@.len());
        }
        let sid = self.scope_stack[self.scope_stack.len() - 1];
        proof {
            assert(self.tables@[sid as int].wf());
            assert(self.tables@[sid as int]@ == self@.tables[sid as int]);
        }
        &mut self.tables[sid]
    }

    /// Writes `value` under the byte-string `name` in the innermost scope.
    /// Assigning nil removes the binding, as the map part of a table does.
    pub fn set_local(&mut self, name: Vec<u8>, value: &LuaValue)
        requires
            old(self).wf(),
            val_wf(value@, old(self)@.tables.len() as int),
        ensures
            final(self).wf(),
            final(self)@.scopes == old(self)@.scopes,
            final(self)@.tables == old(self)@.tables.update(
                old(self)@.scopes.last(),
                map_set_m(old(self)@.tables[old(self)@.scopes.last()], Val::Str(name@), value@),
            ),
    {
        proof {
            assert(self@.scopes.len() == self.scope_stack@.len());
            assert(self@.scopes[self@.scopes.len() - 1] == self.scope_stack@[
                self.scope_stack@.len() - 1] as int);
            assert(0 <= self@.scopes[self@.scopes.len() - 1] < self@.tables.len());
        }
        let sid = self.scope_stack[self.scope_stack.len() - 1];
        let ghost gn = name@;
        proof {
            assert(self.tables@[sid as int].wf());
            assert(self.tables@[sid as int]@ == self@.tables[sid as int]);
        }
        let t = &mut self.tables[sid];
        t.set_string(name, value);
        proof {
            assert(self@.tables =~= old(self)@.tables.update(
                sid as int,
                map_set_m(old(self)@.tables[sid as int], Val::Str(gn), value@),
            ));
            assert(self@.scopes =~= old(self)@.scopes);
            let n = self@.tables.len() as int;
            assert(n == old(self)@.tables.len() as int);
            assert forall|i: int| 0 <= i < n implies (#[trigger] self@.tables[i]).id == i
                && table_vals_wf(self@.tables[i], n) by {
                if i == sid as int {
                    assert(old(self)@.tables[i].id == i);
                    lemma_map_set_vals_wf(old(self)@.tables[i], Val::Str(gn), value@, n);
                } else {
                    assert(self@.tables[i] == old(self)@.tables[i]);
                }
            }
            assert forall|i: int| 0 <= i < self.tables@.len() implies (
            #[trigger] self.tables@[i]).wf() by {
                if i != sid as int {
                    assert(self.tables@[i] == old(self).tables@[i]);
                }
            }
        }
    }

    /// The number of scopes on the stack.
    pub fn scope_depth(&self) -> (r: usize)
        ensures
            r == self@.scopes.len(),
    {
        self.scope_stack.len()
    }

    /// Pushes a fresh scope table, minting its identity from the arena.
    pub fn push_scope(&mut self)
        requires
            old(self).wf(),
        ensures
            final(self).wf(),
            final(self)@.tables == old(self)@.tables.push(
                TableM {
                    id: old(self)@.tables.len() as int,
                    arr: Seq::<Val>::empty(),
                    map: Map::<Val, Val>::empty(),
                },
            ),
            final(self)@.scopes == old(self)@.scopes.push(old(self)@.tables.len() as int),
    {
        let id = self.alloc_table(0);
        self.scope_stack.push(id);
        proof {
            assert(self@.scopes =~= old(self)@.scopes.push(old(self)@.tables.len() as int));
            let n = self@.tables.len() as int;
            assert forall|i: int| 0 <= i < self@.scopes.len() implies 0 <= #[trigger] self@.scopes[i]
                < n by {
                if i < self@.scopes.len() - 1 {
                    assert(self@.scopes[i] == old(self)@.scopes[i]);
                }
            }
        }
    }

    /// Pops the innermost scope; the scope table itself stays in the arena,
    /// since table handles may outlive the scope. Popping the base scope of
    /// a fresh state is a programmer error and is excluded by contract.
    pub fn pop_scope(&mut self)
        requires
            old(self).wf(),
            old(self)@.scopes.len() >= 2,
        ensures
            final(self).wf(),
            final(self)@.tables == old(self)@.tables,
            final(self)@.scopes == old(self)@.scopes.drop_last(),
    {
        proof {
            assert(self@.scopes.len() == self.scope_stack@.len());
        }
        self.scope_stack.pop();
        proof {
            assert(self@.scopes =~= old(self)@.scopes.drop_last());
            assert(self@.tables =~= old(self)@.tables);
            assert forall|i: int| 0 <= i < self@.scopes.len() implies 0 <= #[trigger] self@.scopes[i]
                < self@.tables.len() by {
                assert(self@.scopes[i] == old(self)@.scopes[i]);
            }
        }
    }
}

} // verus!

verus! {

/// Law: after a table write under a valid (non-nil, non-NaN) key with a
/// non-nil value, reading the same key gives exactly that value back.
pub proof fn lemma_table_set_get(t: TableM, k: Val, v: Val)
    requires
        key_valid(k),
        v != Val::Nil,
    ensures
        table_get_m(table_set_m(t, k, v), k) == v,
{
    let nk = norm_key(k);
    let t2 = table_set_m(t, k, v);
    match nk {
        Val::Int(i) => {
            if 1 <= i && i <= t.arr.len() {
                assert(t2.arr[i - 1] == v);
            } else if i == t.arr.len() + 1 {
                assert(t2.arr[i - 1] == v);
            } else {
                assert(t2.map == t.map.insert(nk, v));
            }
        },
        _ => {
            assert(t2.map == t.map.insert(nk, v));
        },
    }
}

/// Law: setting integer key 1 gives the table a sequence border of at
/// least 1, whatever the value (nil occupies the slot without truncating).
pub proof fn lemma_set_first_border(t: TableM, v: Val)
    ensures
        table_set_m(t, Val::Int(1), v).arr.len() >= 1,
{
}

/// Law: a float key carrying an integral value addresses the same slot as
/// the integer key it rounds to, for writes and reads alike.
pub proof fn lemma_float_int_key_agree(t: TableM, b: u64, v: Val)
    requires
        float_is_integral(b),
    ensures
        table_set_m(t, Val::Float(b), v) == table_set_m(
            t,
            Val::Int(f64_to_i64(round_bits(b))),
            v,
        ),
        table_get_m(t, Val::Float(b)) == table_get_m(t, Val::Int(f64_to_i64(round_bits(b)))),
{
}

} // verus!

verus! {

/// A value read from a table whose contents are well formed is itself
/// well formed.
pub proof fn lemma_table_get_wf(t: TableM, k: Val, n: int)
    requires
        table_vals_wf(t, n),
    ensures
        val_wf(table_get_m(t, k), n),
{
    if key_valid(k) {
        let nk = norm_key(k);
        match nk {
            Val::Int(i) => {
                if 1 <= i && i <= t.arr.len() {
                    assert(val_wf(t.arr[i - 1], n));
                } else {
                    if t.map.contains_key(nk) {
                        assert(t.map.contains_key(nk));
                    }
                }
            },
            _ => {
                if t.map.contains_key(nk) {
                    assert(t.map.contains_key(nk));
                }
            },
        }
    }
}

impl LuaState {
    /// Reads the value under `key` in the table with identity `tid`.
    pub fn table_get_at(&self, tid: usize, key: &LuaValue) -> (r: LuaValue)
        requires
            self.wf(),
            tid < self@.tables.len(),
        ensures
            r@ == table_get_m(self@.tables[tid as int], key@),
            val_wf(r@, self@.tables.len() as int),
    {
        proof {
            assert(self@.tables.len() == self.tables@.len());
            assert(self.tables@[tid as int].wf());
            assert(self.tables@[tid as int]@ == self@.tables[tid as int]);
            lemma_table_get_wf(self@.tables[tid as int], key@, self@.tables.len() as int);
        }
        self.tables[tid].get(key)
    }

    /// The sequence border of the table with identity `tid`.
    pub fn sequence_border_at(&self, tid: usize) -> (r: usize)
        requires
            self.wf(),
            tid < self@.tables.len(),
        ensures
            r == self@.tables[tid as int].arr.len(),
    {
        proof {
            assert(self@.tables.len() == self.tables@.len());
            assert(self.tables@[tid as int]@ == self@.tables[tid as int]);
        }
        self.tables[tid].sequence_border()
    }

    /// The value bound under the reserved name `_ENV` in the outermost
    /// scope (normally the global table).
    pub fn env_value(&self) -> (r: LuaValue)
        requires
            self.wf(),
        ensures
            r@ == map_get_m(self@.tables[self@.scopes[0]].map, Val::Str(env_name())),
            val_wf(r@, self@.tables.len() as int),
    {
        proof {
            assert(self@.scopes.len() == self.scope_stack@.len());
            assert(self@.scopes[0] == self.scope_stack@[0] as int);
            assert(0 <= self@.scopes[0] < self@.tables.len());
            assert(self@.tables.len() == self.tables@.len());
        }
        let sid = self.scope_stack[0];
        proof {
            assert(self.tables@[sid as int].wf());
            assert(self.tables@[sid as int]@ == self@.tables[sid as int]);
            let t = self@.tables[sid as int];
            if t.map.contains_key(Val::Str(env_name())) {
                assert(val_wf(t.map[Val::Str(env_name())], self@.tables.len() as int));
            }
        }
        self.tables[sid].get_string(env_key())
    }

    /// Writes `value` under `key` in the table with identity `tid`, per
    /// the table invariants; nil and NaN keys are rejected.
    pub fn table_set_at(&mut self, tid: usize, key: &LuaValue, value: &LuaValue) -> (r: Result<
        (),
        LuaError,
    >)
        requires
            old(self).wf(),
            tid < old(self)@.tables.len(),
            val_wf(key@, old(self)@.tables.len() as int),
            val_wf(value@, old(self)@.tables.len() as int),
        ensures
            final(self).wf(),
            r is Ok <==> key_valid(key@),
            r is Ok ==> final(self)@ == (StateM {
                tables: old(self)@.tables.update(
                    tid as int,
                    table_set_m(old(self)@.tables[tid as int], key@, value@),
                ),
                ..old(self)@
            }),
            r is Err ==> final(self)@ == old(self)@ && r->Err_0@ is IndexErr,
    {
        proof {
            assert(old(self)@.tables.len() == old(self).tables@.len());
            assert(old(self).tables@[tid as int].wf());
            assert(old(self).tables@[tid as int]@ == old(self)@.tables[tid as int]);
        }
        let t = &mut self.tables[tid];
        let r = t.set(key, value);
        proof {
            let n = old(self)@.tables.len() as int;
            match &r {
                Ok(_) => {
                    assert(self@.tables =~= old(self)@.tables.update(
                        tid as int,
                        table_set_m(old(self)@.tables[tid as int], key@, value@),
                    ));
                    assert(self@.scopes =~= old(self)@.scopes);
                    assert forall|i: int| 0 <= i < n implies (#[trigger] self@.tables[i]).id == i
                        && table_vals_wf(self@.tables[i], n) by {
                        if i == tid as int {
                            assert(old(self)@.tables[i].id == i);
                            lemma_table_set_vals_wf(old(self)@.tables[i], key@, value@, n);
                        } else {
                            assert(self@.tables[i] == old(self)@.tables[i]);
                        }
                    }
                    assert forall|i: int| 0 <= i < self.tables@.len() implies (
                    #[trigger] self.tables@[i]).wf() by {
                        if i != tid as int {
                            assert(self.tables@[i] == old(self).tables@[i]);
                        }
                    }
                    assert(self@ =~= (StateM {
                        tables: old(self)@.tables.update(
                            tid as int,
                            table_set_m(old(self)@.tables[tid as int], key@, value@),
                        ),
                        ..old(self)@
                    }));
                },
                Err(_) => {
                    assert(self@.tables =~= old(self)@.tables);
                    assert(self@.scopes =~= old(self)@.scopes);
                    assert(self@ =~= old(self)@);
                    assert forall|i: int| 0 <= i < self.tables@.len() implies (
                    #[trigger] self.tables@[i]).wf() by {
                        if i != tid as int {
                            assert(self.tables@[i] == old(self).tables@[i]);
                        }
                    }
                },
            }
        }
        r
    }
}

} // verus!
