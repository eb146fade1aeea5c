//! Moving Rust values into and out of [`Value`]s.
use vstd::prelude::*;

use crate::value::{Val, Value, lemma_values_view_index, lemma_values_view_len, values_view};

verus! {

/// A Rust type whose values can be stored as [`Value`]s.
pub trait ToValue: Sized {
    /// The stored form of a value.
    spec fn stored(self) -> Val;

    fn to_value(self) -> (r: Value)
        ensures
            r@ == self.stored(),
    ;
}

/// A Rust type that can be read back from the [`Value`]s it stores.
pub trait FromValue: ToValue {
    /// Whether a stored value is the stored form of some value of the type.
    spec fn accepts(v: Val) -> bool;

    /// The value whose stored form is `v`; `None` where there is none.
    fn from_value(v: Value) -> (r: Option<Self>)
        ensures
            r is Some <==> Self::accepts(v@),
            r matches Some(x) ==> x.stored() == v@,
    ;
}

/// Whether every value of `items` is accepted by `T`.
pub open spec fn all_accepted<T: FromValue>(items: Seq<Val>) -> bool
    decreases items.len(),
{
    if items.len() == 0 {
        true
    } else {
        all_accepted::<T>(items.drop_last()) && T::accepts(items.last())
    }
}

pub proof fn lemma_all_accepted<T: FromValue>(items: Seq<Val>)
    ensures
        all_accepted::<T>(items) <==> forall|k: int| 0 <= k < items.len() ==> #[trigger] T::accepts(items[k]),
    decreases items.len(),
{
    if items.len() > 0 {
        let init = items.drop_last();
        lemma_all_accepted::<T>(init);
        if all_accepted::<T>(items) {
            assert forall|k: int| 0 <= k < items.len() implies #[trigger] T::accepts(items[k]) by {
                if k < items.len() - 1 {
                    assert(init[k] == items[k]);
                    assert(T::accepts(init[k]));
                }
            }
        }
        if forall|k: int| 0 <= k < items.len() ==> #[trigger] T::accepts(items[k]) {
            assert forall|k: int| 0 <= k < init.len() implies #[trigger] T::accepts(init[k]) by {
                assert(init[k] == items[k]);
                assert(T::accepts(items[k]));
            }
            assert(T::accepts(items[items.len() - 1]));
        }
    }
}

impl ToValue for bool {
    open spec fn stored(self) -> Val {
        Val::Boolean(self)
    }

    fn to_value(self) -> (r: Value) {
        Value::Boolean(self)
    }
}

impl ToValue for u8 {
    open spec fn stored(self) -> Val {
        Val::UInt(self as u64)
    }

    fn to_value(self) -> (r: Value) {
        Value::UInt(self as u64)
    }
}

impl ToValue for u16 {
    open spec fn stored(self) -> Val {
        Val::UInt(self as u64)
    }

    fn to_value(self) -> (r: Value) {
        Value::UInt(self as u64)
    }
}

impl ToValue for u32 {
    open spec fn stored(self) -> Val {
        Val::UInt(self as u64)
    }

    fn to_value(self) -> (r: Value) {
        Value::UInt(self as u64)
    }
}

impl ToValue for u64 {
    open spec fn stored(self) -> Val {
        Val::UInt(self)
    }

    fn to_value(self) -> (r: Value) {
        Value::UInt(self)
    }
}

impl ToValue for i8 {
    open spec fn stored(self) -> Val {
        Val::Int(self as i64)
    }

    fn to_value(self) -> (r: Value) {
        Value::Int(self as i64)
    }
}

impl ToValue for i16 {
    open spec fn stored(self) -> Val {
        Val::Int(self as i64)
    }

    fn to_value(self) -> (r: Value) {
        Value::Int(self as i64)
    }
}

impl ToValue for i32 {
    open spec fn stored(self) -> Val {
        Val::Int(self as i64)
    }

    fn to_value(self) -> (r: Value) {
        Value::Int(self as i64)
    }
}

impl ToValue for i64 {
    open spec fn stored(self) -> Val {
        Val::Int(self)
    }

    fn to_value(self) -> (r: Value) {
        Value::Int(self)
    }
}

impl ToValue for String {
    open spec fn stored(self) -> Val {
        Val::Text(self@)
    }

    fn to_value(self) -> (r: Value) {
        Value::Text(self)
    }
}

impl<T: ToValue> ToValue for Option<T> {
    open spec fn stored(self) -> Val {
        match self {
            Some(x) => x.stored(),
            None => Val::Null,
        }
    }

    fn to_value(self) -> (r: Value) {
        match self {
            Some(x) => x.to_value(),
            None => Value::Null,
        }
    }
}

impl<T: ToValue> ToValue for Vec<T> {
    open spec fn stored(self) -> Val {
        Val::List(Seq::new(self@.len(), |i: int| self@[i].stored()))
    }

    fn to_value(self) -> (r: Value) {
        let ghost all = self@;
        let mut items = self;
        let mut out: Vec<Value> = Vec::new();
        while items.len() > 0
            invariant
                out@.len() + items@.len() == all.len(),
                items@ == all.subrange(out@.len() as int, all.len() as int),
                forall|k: int| 0 <= k < out@.len() ==> #[trigger] out@[k]@ == all[k].stored(),
            decreases items@.len(),
        {
            let ghost k = out@.len() as int;
            let x = items.remove(0);
            assert(x == all[k]);
            assert(items@ =~= all.subrange(k + 1, all.len() as int));
            let v = x.to_value();
            let ghost before = out@;
            out.push(v);
            assert forall|m: int| 0 <= m < out@.len() implies #[trigger] out@[m]@ == all[m].stored() by {
                if m < k {
                    assert(out@[m] == before[m]);
                }
            }
        }
        proof {
            lemma_values_view_len(out@);
            assert forall|k: int| 0 <= k < out@.len() implies values_view(out@)[k] == all[k].stored() by {
                lemma_values_view_index(out@, k);
                assert(values_view(out@)[k] == out@[k]@);
                assert(out@[k]@ == all[k].stored());
            }
            assert(values_view(out@) =~= Seq::new(all.len(), |i: int| all[i].stored()));
        }
        Value::List(out)
    }
}

impl FromValue for bool {
    open spec fn accepts(v: Val) -> bool {
        v is Boolean
    }

    fn from_value(v: Value) -> (r: Option<bool>) {
        match v {
            Value::Boolean(n) => Some(n),
            _ => None,
        }
    }
}

impl FromValue for u8 {
    open spec fn accepts(v: Val) -> bool {
        v matches Val::UInt(n) && n <= 0xff
    }

    fn from_value(v: Value) -> (r: Option<u8>) {
        match v {
            Value::UInt(n) => if n <= 0xff {
                Some(n as u8)
            } else {
                None
            },
            _ => None,
        }
    }
}

impl FromValue for u16 {
    open spec fn accepts(v: Val) -> bool {
        v matches Val::UInt(n) && n <= 0xffff
    }

    fn from_value(v: Value) -> (r: Option<u16>) {
        match v {
            Value::UInt(n) => if n <= 0xffff {
                Some(n as u16)
            } else {
                None
            },
            _ => None,
        }
    }
}

impl FromValue for u32 {
    open spec fn accepts(v: Val) -> bool {
        v matches Val::UInt(n) && n <= 0xffff_ffff
    }

    fn from_value(v: Value) -> (r: Option<u32>) {
        match v {
            Value::UInt(n) => if n <= 0xffff_ffff {
                Some(n as u32)
            } else {
                None
            },
            _ => None,
        }
    }
}

impl FromValue for u64 {
    open spec fn accepts(v: Val) -> bool {
        v is UInt
    }

    fn from_value(v: Value) -> (r: Option<u64>) {
        match v {
            Value::UInt(n) => Some(n),
            _ => None,
        }
    }
}

impl FromValue for i8 {
    open spec fn accepts(v: Val) -> bool {
        v matches Val::Int(n) && -0x80 <= n <= 0x7f
    }

    fn from_value(v: Value) -> (r: Option<i8>) {
        match v {
            Value::Int(n) => if -0x80 <= n && n <= 0x7f {
                Some(n as i8)
            } else {
                None
            },
            _ => None,
        }
    }
}

impl FromValue for i16 {
    open spec fn accepts(v: Val) -> bool {
        v matches Val::Int(n) && -0x8000 <= n <= 0x7fff
    }

    fn from_value(v: Value) -> (r: Option<i16>) {
        match v {
            Value::Int(n) => if -0x8000 <= n && n <= 0x7fff {
                Some(n as i16)
            } else {
                None
            },
            _ => None,
        }
    }
}

impl FromValue for i32 {
    open spec fn accepts(v: Val) -> bool {
        v matches Val::Int(n) && -0x8000_0000 <= n <= 0x7fff_ffff
    }

    fn from_value(v: Value) -> (r: Option<i32>) {
        match v {
            Value::Int(n) => if -0x8000_0000 <= n && n <= 0x7fff_ffff {
                Some(n as i32)
            } else {
                None
            },
            _ => None,
        }
    }
}

impl FromValue for i64 {
    open spec fn accepts(v: Val) -> bool {
        v is Int
    }

    fn from_value(v: Value) -> (r: Option<i64>) {
        match v {
            Value::Int(n) => Some(n),
            _ => None,
        }
    }
}

impl FromValue for String {
    open spec fn accepts(v: Val) -> bool {
        v is Text
    }

    fn from_value(v: Value) -> (r: Option<String>) {
        match v {
            Value::Text(s) => Some(s),
            _ => None,
        }
    }
}

impl<T: FromValue> FromValue for Option<T> {
    open spec fn accepts(v: Val) -> bool {
        v is Null || T::accepts(v)
    }

    fn from_value(v: Value) -> (r: Option<Option<T>>) {
        match v {
            Value::Null => Some(None),
            other => match T::from_value(other) {
                Some(x) => Some(Some(x)),
                None => None,
            },
        }
    }
}

impl<T: FromValue> FromValue for Vec<T> {
    open spec fn accepts(v: Val) -> bool {
        match v {
            Val::List(items) => all_accepted::<T>(items),
            _ => false,
        }
    }

    fn from_value(v: Value) -> (r: Option<Vec<T>>) {
        match v {
            Value::List(items) => {
                let ghost all = items@;
                proof {
                    lemma_values_view_len(all);
                }
                let mut items = items;
                let mut out: Vec<T> = Vec::new();
                while items.len() > 0
                    invariant
                        v@ == Val::List(values_view(all)),
                        values_view(all).len() == all.len(),
                        out@.len() + items@.len() == all.len(),
                        items@ == all.subrange(out@.len() as int, all.len() as int),
                        forall|k: int| 0 <= k < out@.len() ==> #[trigger] out@[k].stored() == values_view(all)[k],
                        forall|k: int| 0 <= k < out@.len() ==> T::accepts(#[trigger] values_view(all)[k]),
                    decreases items@.len(),
                {
                    let x = items.remove(0);
                    let ghost k = out@.len() as int;
                    proof {
                        lemma_values_view_index(all, k);
                    }
                    assert(items@ =~= all.subrange(k + 1, all.len() as int));
                    assert(x == all[k]);
                    match T::from_value(x) {
                        Some(y) => out.push(y),
                        None => {
                            assert(!T::accepts(values_view(all)[k]));
                            proof {
                                lemma_all_accepted::<T>(values_view(all));
                            }
                            return None;
                        },
                    }
                }
                assert(Seq::new(out@.len(), |i: int| out@[i].stored()) =~= values_view(all));
                proof {
                    lemma_all_accepted::<T>(values_view(all));
                }
                Some(out)
            },
            _ => None,
        }
    }
}

} // verus!
