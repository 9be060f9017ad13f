//! JSON-pointer paths: splitting `/a/b` into segments, reading through a
//! value tree, and writing with intermediate objects created on the way.
//!
//! Paths are split on `/` with no escape sequences; a numeric segment
//! (digits without a leading zero) indexes into an array.

use vstd::prelude::*;
use vstd::string::StrSliceExecFns;

use crate::json::{
    get_field, jview, jview_arr, jview_obj, obj_lookup, obj_set, JsonValue, JsonView,
};
use crate::strutil::{push_char, str_eq};

verus! {

/// The index of the first `/` in `s`, or `-1` when there is none.
pub open spec fn first_sep(s: Seq<char>) -> int
    decreases s.len(),
{
    if s.len() == 0 {
        -1
    } else if s[0] == '/' {
        0
    } else {
        let r = first_sep(s.skip(1));
        if r < 0 {
            -1
        } else {
            r + 1
        }
    }
}

/// The first separator, when present, lies inside the sequence and is the
/// leftmost `/`.
pub proof fn lemma_first_sep(s: Seq<char>)
    ensures
        -1 <= first_sep(s) < s.len(),
        first_sep(s) >= 0 ==> s[first_sep(s)] == '/',
        forall|j: int| 0 <= j < first_sep(s) ==> s[j] != '/',
        first_sep(s) == -1 ==> forall|j: int| 0 <= j < s.len() ==> s[j] != '/',
    decreases s.len(),
{
    if s.len() > 0 && s[0] != '/' {
        lemma_first_sep(s.skip(1));
        let t = s.skip(1);
        let i = first_sep(s);
        if first_sep(t) >= 0 {
            assert forall|j: int| 0 <= j < i implies s[j] != '/' by {
                if j > 0 {
                    assert(t[j - 1] == s[j]);
                }
            }
        } else {
            assert forall|j: int| 0 <= j < s.len() implies s[j] != '/' by {
                if j > 0 {
                    assert(t[j - 1] == s[j]);
                }
            }
        }
    }
}

/// The segments of a path body, split on `/`; separators at the ends give
/// empty segments, as JSON pointers demand.
pub open spec fn split_path(s: Seq<char>) -> Seq<Seq<char>>
    decreases s.len(),
{
    let i = first_sep(s);
    if i < 0 {
        seq![s]
    } else {
        proof {
            lemma_first_sep(s);
        }
        seq![s.take(i)] + split_path(s.skip(i + 1))
    }
}

/// The parsed segments of a pointer: empty pointer means the whole value,
/// anything else must start with `/`.
pub open spec fn ptr_segments(path: Seq<char>) -> Option<Seq<Seq<char>>> {
    if path.len() == 0 {
        Some(Seq::empty())
    } else if path[0] != '/' {
        None
    } else {
        Some(split_path(path.skip(1)))
    }
}

/// A sequence without separators splits into itself alone.
proof fn lemma_split_whole(s: Seq<char>)
    requires
        forall|j: int| 0 <= j < s.len() ==> s[j] != '/',
    ensures
        split_path(s) == seq![s],
{
    lemma_first_sep(s);
    if first_sep(s) >= 0 {
        assert(s[first_sep(s)] == '/');
    }
}

/// Splitting after a separator-free prefix peels that prefix off.
proof fn lemma_split_step(a: Seq<char>, b: Seq<char>)
    requires
        forall|j: int| 0 <= j < a.len() ==> a[j] != '/',
    ensures
        split_path(a + seq!['/'] + b) == seq![a] + split_path(b),
    decreases a.len(),
{
    let s = a + seq!['/'] + b;
    assert(s.len() == a.len() + 1 + b.len());
    assert forall|j: int| 0 <= j < a.len() implies s[j] != '/' by {
        assert(s[j] == a[j]);
    }
    assert(s[a.len() as int] == '/');
    lemma_first_sep(s);
    let i = first_sep(s);
    assert(i >= 0);
    assert(i <= a.len()) by {
        if i > a.len() {
            assert(s[a.len() as int] == '/');
        }
    }
    assert(i >= a.len()) by {
        if i < a.len() {
            assert(s[i] != '/');
        }
    }
    assert(i == a.len());
    assert(s.take(i) =~= a);
    assert(s.skip(i + 1) =~= b);
}

/// The views of a vector of strings.
pub open spec fn strs_view(v: Seq<String>) -> Seq<Seq<char>> {
    Seq::new(v.len(), |i: int| v[i]@)
}

/// Splits a pointer into its segments; `None` when the pointer is
/// non-empty and does not start with `/`.
pub fn split_pointer(path: &str) -> (r: Option<Vec<String>>)
    ensures
        match r {
            Some(segs) => ptr_segments(path@) == Some(strs_view(segs@)),
            None => ptr_segments(path@) is None,
        },
{
    let n = path.unicode_len();
    if n == 0 {
        let segs: Vec<String> = Vec::new();
        proof {
            assert(strs_view(segs@) =~= Seq::<Seq<char>>::empty());
        }
        return Some(segs);
    }
    let first = path.get_char(0);
    if first != '/' {
        return None;
    }
    let ghost tail = path@.skip(1);
    let mut out: Vec<String> = Vec::new();
    let mut cur = String::new();
    let mut i: usize = 1;
    proof {
        assert(cur@ + path@.skip(1) =~= tail);
        assert(strs_view(out@) =~= Seq::<Seq<char>>::empty());
        assert(split_path(tail) == strs_view(out@) + split_path(cur@ + path@.skip(i as int)));
    }
    while i < n
        invariant
            1 <= i <= n,
            n == path@.len(),
            tail == path@.skip(1),
            forall|j: int| 0 <= j < cur@.len() ==> cur@[j] != '/',
            split_path(tail) == strs_view(out@) + split_path(cur@ + path@.skip(i as int)),
        decreases n - i,
    {
        let c = path.get_char(i);
        let ghost rest = path@.skip(i as int);
        proof {
            assert(rest[0] == c);
            assert(rest.skip(1) =~= path@.skip(i + 1));
        }
        if c == '/' {
            proof {
                lemma_split_step(cur@, path@.skip(i + 1));
                assert(cur@ + seq!['/'] + path@.skip(i + 1) =~= cur@ + path@.skip(i as int));
            }
            let ghost old_out = out@;
            let ghost old_cur = cur@;
            out.push(cur);
            cur = String::new();
            proof {
                assert(strs_view(out@) =~= strs_view(old_out).push(old_cur));
                assert(strs_view(old_out) + (seq![old_cur] + split_path(path@.skip(i + 1)))
                    =~= strs_view(out@) + split_path(path@.skip(i + 1)));
                assert(cur@ + path@.skip(i + 1) =~= path@.skip(i + 1));
            }
        } else {
            let ghost old_cur = cur@;
            push_char(&mut cur, c);
            proof {
                assert(cur@ =~= old_cur.push(c));
                assert(cur@ + path@.skip(i + 1) =~= old_cur + path@.skip(i as int));
            }
        }
        i += 1;
    }
    proof {
        assert(cur@ + path@.skip(n as int) =~= cur@);
        lemma_split_whole(cur@);
    }
    let ghost old_out = out@;
    let ghost last = cur@;
    out.push(cur);
    proof {
        assert(strs_view(out@) =~= strs_view(old_out).push(last));
        assert(strs_view(old_out) + seq![last] =~= strs_view(out@));
    }
    Some(out)
}

/// The array index denoted by a segment: digits only, with no leading
/// zero except for `0` itself.
pub open spec fn seg_index(seg: Seq<char>) -> Option<int> {
    if seg.len() == 0 {
        None
    } else if seg.len() > 1 && seg[0] == '0' {
        None
    } else if forall|j: int| 0 <= j < seg.len() ==> '0' <= #[trigger] seg[j] <= '9' {
        Some(seg_digits_value(seg))
    } else {
        None
    }
}

/// The value of a digit sequence, most significant first.
pub open spec fn seg_digits_value(seg: Seq<char>) -> int
    decreases seg.len(),
{
    if seg.len() == 0 {
        0
    } else {
        seg_digits_value(seg.take(seg.len() - 1)) * 10 + (seg.last() as int - '0' as int)
    }
}

/// Parses a segment as an array index; `None` when it is not an index or
/// does not fit a machine word (such an index misses every array).
pub fn parse_seg_index(seg: &str) -> (r: Option<usize>)
    ensures
        match r {
            Some(u) => seg_index(seg@) == Some(u as int),
            None => seg_index(seg@) is None || match seg_index(seg@) {
                Some(i) => i > usize::MAX,
                None => false,
            },
        },
{
    let n = seg.unicode_len();
    if n == 0 {
        return None;
    }
    let first = seg.get_char(0);
    if n > 1 && first == '0' {
        return None;
    }
    let mut val: usize = 0;
    let mut i: usize = 0;
    while i < n
        invariant
            0 <= i <= n,
            n == seg@.len(),
            forall|j: int| 0 <= j < i ==> '0' <= #[trigger] seg@[j] <= '9',
            val == seg_digits_value(seg@.take(i as int)),
        decreases n - i,
    {
        let c = seg.get_char(i);
        if c < '0' || c > '9' {
            return None;
        }
        let d = (c as u32 - '0' as u32) as usize;
        proof {
            assert(seg@.take(i + 1).take(i as int) =~= seg@.take(i as int));
            assert(seg@.take(i + 1).last() == seg@[i as int]);
        }
        if val > (usize::MAX - d) / 10 {
            proof {
                assert(seg_digits_value(seg@.take(i + 1)) > usize::MAX);
                if forall|j: int| 0 <= j < seg@.len() ==> '0' <= #[trigger] seg@[j] <= '9' {
                    lemma_seg_value_grows(seg@, i + 1);
                }
            }
            return None;
        }
        val = val * 10 + d;
        i += 1;
    }
    proof {
        assert(seg@.take(n as int) =~= seg@);
    }
    Some(val)
}

/// A digit string's value never shrinks as more digits are read.
pub proof fn lemma_seg_value_grows_pub(s: Seq<char>, i: int)
    requires
        0 <= i <= s.len(),
        forall|j: int| 0 <= j < s.len() ==> '0' <= #[trigger] s[j] <= '9',
    ensures
        seg_digits_value(s) >= seg_digits_value(s.take(i)),
        seg_digits_value(s.take(i)) >= 0,
{
    lemma_seg_value_grows(s, i);
}

/// A digit string's value never shrinks as more digits are read.
proof fn lemma_seg_value_grows(s: Seq<char>, i: int)
    requires
        0 <= i <= s.len(),
        forall|j: int| 0 <= j < s.len() ==> '0' <= #[trigger] s[j] <= '9',
    ensures
        seg_digits_value(s) >= seg_digits_value(s.take(i)),
        seg_digits_value(s.take(i)) >= 0,
    decreases s.len() - i,
{
    lemma_seg_value_nonneg(s.take(i));
    if i < s.len() {
        lemma_seg_value_grows(s, i + 1);
        assert(s.take(i + 1).take(i) =~= s.take(i));
        assert(seg_digits_value(s.take(i + 1)) == seg_digits_value(s.take(i)) * 10 + (s.take(
            i + 1,
        ).last() as int - '0' as int));
    } else {
        assert(s.take(i) =~= s);
    }
}

/// Digit strings denote non-negative values.
proof fn lemma_seg_value_nonneg(s: Seq<char>)
    requires
        forall|j: int| 0 <= j < s.len() ==> '0' <= #[trigger] s[j] <= '9',
    ensures
        seg_digits_value(s) >= 0,
    decreases s.len(),
{
    if s.len() > 0 {
        assert(forall|j: int|
            0 <= j < s.take(s.len() - 1).len() ==> '0' <= #[trigger] s.take(s.len() - 1)[j]
                <= '9');
        lemma_seg_value_nonneg(s.take(s.len() - 1));
    }
}

/// Reads through a value along parsed segments.
pub open spec fn ptr_get(v: JsonView, segs: Seq<Seq<char>>) -> Option<JsonView>
    decreases segs.len(),
{
    if segs.len() == 0 {
        Some(v)
    } else {
        match v {
            JsonView::Obj(entries) => match obj_lookup(entries, segs[0]) {
                Some(child) => ptr_get(child, segs.skip(1)),
                None => None,
            },
            JsonView::Arr(items) => match seg_index(segs[0]) {
                Some(i) => if 0 <= i < items.len() {
                    ptr_get(items[i], segs.skip(1))
                } else {
                    None
                },
                None => None,
            },
            _ => None,
        }
    }
}

/// Whether a write along the segments can succeed: every existing
/// intermediate must be an object, or an array indexed in range; missing
/// object fields are created.
pub open spec fn ptr_can_set(v: JsonView, segs: Seq<Seq<char>>) -> bool
    decreases segs.len(),
{
    if segs.len() == 0 {
        true
    } else {
        match v {
            JsonView::Obj(entries) => match obj_lookup(entries, segs[0]) {
                Some(child) => ptr_can_set(child, segs.skip(1)),
                None => ptr_can_set(JsonView::Obj(Seq::empty()), segs.skip(1)),
            },
            JsonView::Arr(items) => match seg_index(segs[0]) {
                Some(i) => 0 <= i < items.len() && ptr_can_set(items[i], segs.skip(1)),
                None => false,
            },
            _ => false,
        }
    }
}

/// The value after writing `val` along the segments (meaningful when
/// `ptr_can_set` holds).
pub open spec fn ptr_set(v: JsonView, segs: Seq<Seq<char>>, val: JsonView) -> JsonView
    decreases segs.len(),
{
    if segs.len() == 0 {
        val
    } else {
        match v {
            JsonView::Obj(entries) => {
                let child = match obj_lookup(entries, segs[0]) {
                    Some(c) => c,
                    None => JsonView::Obj(Seq::empty()),
                };
                JsonView::Obj(obj_set(entries, segs[0], ptr_set(child, segs.skip(1), val)))
            },
            JsonView::Arr(items) => match seg_index(segs[0]) {
                Some(i) => if 0 <= i < items.len() {
                    JsonView::Arr(items.update(i, ptr_set(items[i], segs.skip(1), val)))
                } else {
                    v
                },
                None => v,
            },
            _ => v,
        }
    }
}

/// Reads the value at the segments starting at `from`, borrowing into the
/// tree.
pub fn get_pointer<'a>(v: &'a JsonValue, segs: &Vec<String>, from: usize) -> (r: Option<
    &'a JsonValue,
>)
    requires
        from <= segs@.len(),
    ensures
        match r {
            Some(c) => ptr_get(v@, strs_view(segs@).skip(from as int)) == Some(c@),
            None => ptr_get(v@, strs_view(segs@).skip(from as int)) is None,
        },
    decreases segs@.len() - from,
{
    let ghost rest = strs_view(segs@).skip(from as int);
    if from == segs.len() {
        proof {
            assert(rest.len() == 0);
        }
        return Some(v);
    }
    proof {
        assert(rest[0] == segs@[from as int]@);
        assert(rest.skip(1) =~= strs_view(segs@).skip(from + 1));
    }
    match v {
        JsonValue::Obj(entries) => {
            proof {
                assert(v@ == JsonView::Obj(jview_obj(entries@)));
            }
            match v.get(segs[from].as_str()) {
                Some(child) => {
                    proof {
                        assert(obj_lookup(jview_obj(entries@), rest[0]) == Some(child@));
                    }
                    let inner = get_pointer(child, segs, from + 1);
                    proof {
                        assert(ptr_get(v@, rest) == ptr_get(child@, rest.skip(1)));
                        assert(rest.skip(1) == strs_view(segs@).skip(from + 1));
                    }
                    inner
                },
                None => {
                    proof {
                        assert(get_field(v@, rest[0]) is None);
                        assert(ptr_get(v@, rest) is None);
                    }
                    None
                },
            }
        },
        JsonValue::Arr(items) => {
            proof {
                crate::json::lemma_jview_arr(items@);
                vstd::std_specs::vec::axiom_spec_len(items);
                assert(v@ == JsonView::Arr(jview_arr(items@)));
            }
            match parse_seg_index(segs[from].as_str()) {
                Some(i) => {
                    if i < items.len() {
                        let inner = get_pointer(&items[i], segs, from + 1);
                        proof {
                            assert(jview_arr(items@)[i as int] == jview(items@[i as int]));
                            assert(ptr_get(v@, rest) == ptr_get(
                                jview(items@[i as int]),
                                rest.skip(1),
                            ));
                        }
                        inner
                    } else {
                        proof {
                            assert(jview_arr(items@).len() == items@.len());
                            assert(ptr_get(v@, rest) is None);
                        }
                        None
                    }
                },
                None => {
                    proof {
                        assert(jview_arr(items@).len() == items@.len());
                        assert(ptr_get(v@, rest) is None);
                    }
                    None
                },
            }
        },
        _ => None,
    }
}

/// Writes `val` at the segments starting at `from`, creating missing
/// object fields on the way; fails exactly when an existing intermediate
/// is not traversable.
#[verifier::rlimit(50)]
pub fn set_pointer(v: JsonValue, segs: &Vec<String>, from: usize, val: JsonValue) -> (r: Result<
    JsonValue,
    (),
>)
    requires
        from <= segs@.len(),
    ensures
        match r {
            Ok(out) => ptr_can_set(v@, strs_view(segs@).skip(from as int)) && out@ == ptr_set(
                v@,
                strs_view(segs@).skip(from as int),
                val@,
            ),
            Err(_) => !ptr_can_set(v@, strs_view(segs@).skip(from as int)),
        },
    decreases segs@.len() - from,
{
    let ghost rest = strs_view(segs@).skip(from as int);
    if from == segs.len() {
        proof {
            assert(rest.len() == 0);
        }
        return Ok(val);
    }
    proof {
        assert(rest[0] == segs@[from as int]@);
        assert(rest.skip(1) =~= strs_view(segs@).skip(from + 1));
    }
    match v {
        JsonValue::Obj(mut entries) => {
            let ghost vv = v@;
            let ghost gval = val@;
            let ghost orig = jview_obj(entries@);
            proof {
                crate::json::lemma_jview_obj(entries@);
                assert(vv == JsonView::Obj(orig));
            }
            match crate::json::obj_find_index(&entries, segs[from].as_str()) {
                Some(i) => {
                    proof {
                        crate::json::lemma_obj_lookup_at(orig, rest[0], i as int);
                    }
                    let ghost pre = entries@;
                    let pair = entries.remove(i);
                    proof {
                        assert(pair == pre[i as int]);
                        assert(jview(pair.1) == orig[i as int].1);
                    }
                    let new_child = match set_pointer(pair.1, segs, from + 1, val) {
                        Ok(c) => c,
                        Err(e) => {
                            proof {
                                assert(!ptr_can_set(jview(pre[i as int].1), rest.skip(1)));
                                assert(!ptr_can_set(vv, rest));
                            }
                            return Err(e);
                        },
                    };
                    entries.insert(i, (pair.0, new_child));
                    proof {
                        assert(entries@ =~= pre.update(i as int, (pre[i as int].0, new_child)));
                        crate::json::lemma_jview_obj(entries@);
                        crate::json::lemma_obj_set_at(orig, rest[0], i as int, jview(new_child));
                        assert(jview_obj(entries@) =~= orig.update(
                            i as int,
                            (rest[0], jview(new_child)),
                        ));
                        assert(ptr_can_set(vv, rest));
                        assert(jview(new_child) == ptr_set(orig[i as int].1, rest.skip(1), gval));
                        assert(ptr_set(vv, rest, gval) == JsonView::Obj(
                            obj_set(orig, rest[0], jview(new_child)),
                        ));
                    }
                    Ok(JsonValue::Obj(entries))
                },
                None => {
                    proof {
                        crate::json::lemma_obj_lookup_none(orig, rest[0]);
                    }
                    let child = JsonValue::Obj(Vec::new());
                    proof {
                        assert(child@ == JsonView::Obj(jview_obj(Seq::<(String, JsonValue)>::empty())));
                        assert(jview_obj(Seq::<(String, JsonValue)>::empty()) =~= Seq::<
                            (Seq<char>, JsonView),
                        >::empty());
                    }
                    let ghost cv = child@;
                    let new_child = match set_pointer(child, segs, from + 1, val) {
                        Ok(c) => c,
                        Err(e) => {
                            proof {
                                assert(!ptr_can_set(cv, rest.skip(1)));
                                assert(!ptr_can_set(vv, rest));
                            }
                            return Err(e);
                        },
                    };
                    let key = crate::strutil::to_string(segs[from].as_str());
                    let ghost pre = entries@;
                    entries.push((key, new_child));
                    proof {
                        crate::json::lemma_jview_obj(entries@);
                        crate::json::lemma_obj_set_at_end(orig, rest[0], jview(new_child));
                        assert(jview_obj(entries@) =~= orig.push((rest[0], jview(new_child))));
                        assert(ptr_can_set(vv, rest));
                        assert(jview(new_child) == ptr_set(cv, rest.skip(1), gval));
                        assert(ptr_set(vv, rest, gval) == JsonView::Obj(
                            obj_set(orig, rest[0], jview(new_child)),
                        ));
                    }
                    Ok(JsonValue::Obj(entries))
                },
            }
        },
        JsonValue::Arr(mut items) => {
            let ghost vv = v@;
            let ghost gval = val@;
            let ghost orig = jview_arr(items@);
            proof {
                crate::json::lemma_jview_arr(items@);
                vstd::std_specs::vec::axiom_spec_len(&items);
                assert(vv == JsonView::Arr(orig));
                assert(orig.len() == items@.len());
            }
            match parse_seg_index(segs[from].as_str()) {
                Some(i) => {
                    if i < items.len() {
                        let ghost pre = items@;
                        let child = items.remove(i);
                        proof {
                            assert(child == pre[i as int]);
                            assert(jview(child) == orig[i as int]);
                        }
                        let new_child = match set_pointer(child, segs, from + 1, val) {
                            Ok(c) => c,
                            Err(e) => {
                                proof {
                                    assert(!ptr_can_set(jview(pre[i as int]), rest.skip(1)));
                                    assert(!ptr_can_set(vv, rest));
                                }
                                return Err(e);
                            },
                        };
                        items.insert(i, new_child);
                        proof {
                            assert(items@ =~= pre.update(i as int, new_child));
                            crate::json::lemma_jview_arr(items@);
                            assert(jview_arr(items@) =~= orig.update(i as int, jview(new_child)));
                            assert(ptr_can_set(vv, rest));
                            assert(ptr_set(vv, rest, gval) == JsonView::Arr(
                                orig.update(i as int, ptr_set(orig[i as int], rest.skip(1), gval)),
                            ));
                        }
                        Ok(JsonValue::Arr(items))
                    } else {
                        proof {
                            assert(!ptr_can_set(vv, rest));
                        }
                        Err(())
                    }
                },
                None => {
                    proof {
                        assert(!ptr_can_set(vv, rest));
                    }
                    Err(())
                },
            }
        },
        _ => Err(()),
    }
}

} // verus!
