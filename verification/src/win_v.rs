//! Turning the system's Win+V hotkey off and on through the `DisabledHotkeys` value of
//! the Explorer settings: each letter in the value disables Win plus that letter.
use vstd::prelude::*;

verus! {

/// What to do with the registry value.
#[derive(Debug, Clone, PartialEq, Eq)]
pub enum ValueChange {
    /// Leave it as it is.
    Keep,
    /// Write this text.
    Write(String),
    /// Remove the value.
    Delete,
}

/// The value with every `V` removed.
pub open spec fn without_v(s: Seq<char>) -> Seq<char>
    decreases s.len(),
{
    if s.len() == 0 {
        seq![]
    } else {
        without_v(s.drop_last()) + if s.last() == 'V' {
            seq![]
        } else {
            seq![s.last()]
        }
    }
}

/// Whether Win+V is disabled: the value holds a `V`.
pub fn is_disabled(value: &str) -> (b: bool)
    ensures
        b == value@.contains('V'),
{
    let c = crate::text::chars_of(value);
    crate::text::contains_char(c.as_slice(), 'V')
}

/// What disabling Win+V does to the value: appends `V` unless it is there.
pub fn disable_change(value: &str) -> (c: ValueChange)
    ensures
        value@.contains('V') ==> c == ValueChange::Keep,
        !value@.contains('V') ==> (c matches ValueChange::Write(s) && s@ == value@.push('V')),
{
    if is_disabled(value) {
        ValueChange::Keep
    } else {
        let mut c = crate::text::chars_of(value);
        c.push('V');
        ValueChange::Write(crate::text::string_of(c.as_slice()))
    }
}

fn remove_v(value: &str) -> (out: Vec<char>)
    ensures
        out@ == without_v(value@),
{
    let c = crate::text::chars_of(value);
    let mut out: Vec<char> = Vec::new();
    let mut i: usize = 0;
    while i < c.len()
        invariant
            i <= c@.len(),
            c@ == value@,
            out@ == without_v(c@.take(i as int)),
        decreases c.len() - i,
    {
        assert(c@.take(i + 1).drop_last() =~= c@.take(i as int));
        if c[i] != 'V' {
            out.push(c[i]);
        }
        i += 1;
        assert(out@ =~= without_v(c@.take(i as int)));
    }
    assert(c@.take(i as int) =~= c@);
    out
}

/// What enabling Win+V does to the value: removes every `V`, and the value itself
/// when nothing else is left.
pub fn enable_change(value: &str) -> (c: ValueChange)
    ensures
        without_v(value@).len() == 0 ==> c == ValueChange::Delete,
        without_v(value@).len() > 0 && without_v(value@) == value@ ==> c == ValueChange::Keep,
        without_v(value@).len() > 0 && without_v(value@) != value@ ==> (c matches ValueChange::Write(
            s,
        ) && s@ == without_v(value@)),
{
    let out = remove_v(value);
    if out.len() == 0 {
        ValueChange::Delete
    } else {
        let v = crate::text::chars_of(value);
        if crate::text::chars_eq(out.as_slice(), v.as_slice()) {
            ValueChange::Keep
        } else {
            ValueChange::Write(crate::text::string_of(out.as_slice()))
        }
    }
}

proof fn lemma_without_v_has_no_v(s: Seq<char>)
    ensures
        !without_v(s).contains('V'),
    decreases s.len(),
{
    if s.len() > 0 {
        lemma_without_v_has_no_v(s.drop_last());
        let r = without_v(s.drop_last());
        let t: Seq<char> = if s.last() == 'V' {
            seq![]
        } else {
            seq![s.last()]
        };
        if (r + t).contains('V') {
            let k = choose|k: int| 0 <= k < (r + t).len() && (r + t)[k] == 'V';
            if k < r.len() {
                assert(r[k] == 'V');
            }
        }
    }
}

/// After disabling, Win+V is disabled; after enabling, it is not.
pub proof fn lemma_disable_then_enable(value: Seq<char>)
    ensures
        (if value.contains('V') {
            value
        } else {
            value.push('V')
        }).contains('V'),
        !without_v(value).contains('V'),
{
    if !value.contains('V') {
        assert(value.push('V')[value.len() as int] == 'V');
    }
    lemma_without_v_has_no_v(value);
}

} // verus!
