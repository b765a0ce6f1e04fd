use vstd::prelude::*;
use crate::text::{last_index_of, rfind_byte};

verus! {

/// The byte that separates the components of a path: `/`.
pub const SEPARATOR: u8 = 47;

/// The byte that opens an extension, and names the current directory: `.`.
pub const DOT: u8 = 46;

/// The length of a path once trailing separators and trailing `/.` components
/// are dropped; a lone leading byte always stays.
pub open spec fn trimmed_len(path: Seq<u8>) -> int
    decreases path.len(),
{
    if path.len() > 1 && path.last() == SEPARATOR {
        trimmed_len(path.drop_last())
    } else if path.len() > 1 && path.last() == DOT && path[path.len() - 2] == SEPARATOR {
        trimmed_len(path.drop_last())
    } else {
        path.len() as int
    }
}

/// The last component of a path: what follows the last `/` once the path is trimmed.
pub open spec fn last_component(path: Seq<u8>) -> Seq<u8> {
    let trimmed = path.subrange(0, trimmed_len(path));
    trimmed.subrange(last_index_of(trimmed, SEPARATOR) + 1, trimmed.len() as int)
}

/// The file name of a path: its last component, unless that is empty, `.` or `..`.
pub open spec fn file_name(path: Seq<u8>) -> Option<Seq<u8>> {
    let name = last_component(path);
    if name.len() == 0 || name == seq![DOT] || name == seq![DOT, DOT] {
        None
    } else {
        Some(name)
    }
}

/// The extension of a path: what follows the last `.` of its file name, unless
/// it has no file name, or the name has no `.` or only a leading one.
pub open spec fn extension(path: Seq<u8>) -> Option<Seq<u8>> {
    match file_name(path) {
        None => None,
        Some(name) => {
            let dot = last_index_of(name, DOT);
            if dot <= 0 {
                None
            } else {
                Some(name.subrange(dot + 1, name.len() as int))
            }
        },
    }
}

/// Where the file name of a path stands among its bytes.
pub fn file_name_range(bytes: &[u8]) -> (r: Option<(usize, usize)>)
    ensures
        match r {
            Some((lo, hi)) => lo <= hi <= bytes@.len() && file_name(bytes@) == Some(
                bytes@.subrange(lo as int, hi as int),
            ),
            None => file_name(bytes@) is None,
        },
{
    let total: usize = bytes.len();
    let mut end: usize = total;
    assert(bytes@.subrange(0, end as int) =~= bytes@);
    loop
        invariant
            total == bytes@.len(),
            end <= total,
            trimmed_len(bytes@) == trimmed_len(bytes@.subrange(0, end as int)),
        ensures
            end <= total,
            trimmed_len(bytes@) == end,
        decreases end,
    {
        let ghost part = bytes@.subrange(0, end as int);
        if end > 1 && (bytes[end - 1] == SEPARATOR || (bytes[end - 1] == DOT && bytes[end - 2]
            == SEPARATOR)) {
            assert(part.drop_last() =~= bytes@.subrange(0, end - 1));
            assert(part.last() == bytes@[end - 1]);
            assert(part[part.len() - 2] == bytes@[end - 2]);
            end -= 1;
        } else {
            if end > 1 {
                assert(part.last() == bytes@[end - 1]);
                assert(part[part.len() - 2] == bytes@[end - 2]);
            }
            assert(trimmed_len(part) == end);
            break;
        }
    }
    let ghost trimmed = bytes@.subrange(0, end as int);
    assert(trimmed == bytes@.subrange(0, trimmed_len(bytes@)));
    let start: usize = match rfind_byte(bytes, 0, end, SEPARATOR) {
        Some(k) => k + 1,
        None => 0,
    };
    assert(start == last_index_of(trimmed, SEPARATOR) + 1);
    let ghost name = bytes@.subrange(start as int, end as int);
    assert(name =~= last_component(bytes@));
    let len = end - start;
    if len == 0 {
        return None;
    }
    if len == 1 && bytes[start] == DOT {
        assert(name =~= seq![DOT]);
        return None;
    }
    if len == 2 && bytes[start] == DOT && bytes[start + 1] == DOT {
        assert(name =~= seq![DOT, DOT]);
        return None;
    }
    proof {
        if name == seq![DOT] {
            assert(name[0] == DOT);
        }
        if name == seq![DOT, DOT] {
            assert(name[0] == DOT && name[1] == DOT);
        }
    }
    Some((start, end))
}

} // verus!
