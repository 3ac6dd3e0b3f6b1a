//! Selectors for OpenCL devices: `all`, `p1` for a platform, `p1d2` for
//! one device of a platform.

use crate::decimal::{digits_end, number_at, read_number};
use vstd::prelude::*;
use vstd::string::*;

verus! {

/// A selector used to choose OpenCL devices.
#[derive(Debug, Clone, Copy, PartialEq, Eq)]
pub enum Selector {
    /// Matches all non-custom OpenCL devices.
    All,
    /// Matches all non-custom devices for a given platform.
    PlatformIndex(usize),
    /// Matches a single device by platform and device index.
    DeviceIndex(usize, usize),
}

/// A text that is no selector.
#[derive(Debug, PartialEq, Eq, Clone)]
pub struct InvalidSelector(pub String);

/// The selector that the bytes `s` spell: `all`; `p` and a number; or `p`,
/// a number, `d` and a number. The numbers are runs of ASCII digits and
/// must fit in `usize`.
pub open spec fn spelled(s: Seq<u8>) -> Option<Selector> {
    let k = digits_end(s, 1);
    let end = digits_end(s, k + 1);
    if s == seq![0x61u8, 0x6cu8, 0x6cu8] {
        Some(Selector::All)
    } else if s.len() < 2 || s[0] != 0x70 || k == 1 {
        None
    } else if k == s.len() {
        match number_at(s, 1) {
            Some(platform) => Some(Selector::PlatformIndex(platform)),
            None => None,
        }
    } else if s[k] != 0x64 || end == k + 1 || end != s.len() {
        None
    } else {
        match (number_at(s, 1), number_at(s, k + 1)) {
            (Some(platform), Some(device)) => Some(Selector::DeviceIndex(platform, device)),
            _ => None,
        }
    }
}

impl Selector {
    /// The selector that a text spells.
    pub fn from_str(s: &str) -> (r: Result<Selector, InvalidSelector>)
        ensures
            match r {
                Ok(selector) => spelled(s.spec_bytes()) == Some(selector),
                Err(e) => spelled(s.spec_bytes()) is None && e.0@ == s@,
            },
    {
        let b = s.as_bytes();
        if b.len() == 3 && b[0] == 0x61 && b[1] == 0x6c && b[2] == 0x6c {
            assert(b@ =~= seq![0x61u8, 0x6cu8, 0x6cu8]);
            return Ok(Selector::All);
        }
        if b.len() < 2 || b[0] != 0x70 {
            return Err(InvalidSelector(s.to_owned()));
        }
        let (k, platform) = read_number(b, 1);
        if k == 1 {
            return Err(InvalidSelector(s.to_owned()));
        }
        if k == b.len() {
            return match platform {
                Some(p) => Ok(Selector::PlatformIndex(p)),
                None => Err(InvalidSelector(s.to_owned())),
            };
        }
        if b[k] != 0x64 {
            return Err(InvalidSelector(s.to_owned()));
        }
        let (end, device) = read_number(b, k + 1);
        if end == k + 1 || end != b.len() {
            return Err(InvalidSelector(s.to_owned()));
        }
        match (platform, device) {
            (Some(p), Some(d)) => Ok(Selector::DeviceIndex(p, d)),
            _ => Err(InvalidSelector(s.to_owned())),
        }
    }

    /// Whether this selector matches device `device` of platform `platform`.
    pub open spec fn selects(self, platform: int, device: int) -> bool {
        match self {
            Selector::All => true,
            Selector::PlatformIndex(p) => p == platform,
            Selector::DeviceIndex(p, d) => p == platform && d == device,
        }
    }

    /// Whether this selector names only what there is, among platforms
    /// with the given numbers of devices.
    pub open spec fn in_range(self, pool: Seq<usize>) -> bool {
        match self {
            Selector::All => true,
            Selector::PlatformIndex(p) => p < pool.len(),
            Selector::DeviceIndex(p, d) => p < pool.len() && d < pool[p as int],
        }
    }

    /// Whether this selector names only what there is, among platforms
    /// with the given numbers of devices.
    pub fn is_in_range(&self, pool: &Vec<usize>) -> (r: bool)
        ensures
            r == self.in_range(pool@),
    {
        match self {
            Selector::All => true,
            Selector::PlatformIndex(p) => *p < pool.len(),
            Selector::DeviceIndex(p, d) => *p < pool.len() && *d < pool[*p],
        }
    }

    /// Whether this selector matches device `device` of platform `platform`.
    pub fn matches(&self, platform: usize, device: usize) -> (r: bool)
        ensures
            r == self.selects(platform as int, device as int),
    {
        match self {
            Selector::All => true,
            Selector::PlatformIndex(p) => *p == platform,
            Selector::DeviceIndex(p, d) => *p == platform && *d == device,
        }
    }

    /// Whether any of the given `selectors` matches the device.
    pub fn any_matches(selectors: &Vec<Selector>, platform: usize, device: usize) -> (r: bool)
        ensures
            r == selected_by_any(selectors@, platform as int, device as int),
    {
        let mut i: usize = 0;
        while i < selectors.len()
            invariant
                i <= selectors@.len(),
                forall|j: int| 0 <= j < i ==> !selectors@[j].selects(platform as int, device as int),
            decreases selectors@.len() - i,
        {
            if selectors[i].matches(platform, device) {
                return true;
            }
            i += 1;
        }
        false
    }

    /// Get the devices matched by any of the given `selectors`, each once
    /// and in the order of the pool, as pairs of a platform and a device
    /// index, among platforms with the given numbers of devices.
    pub fn select_all(selectors: &Vec<Selector>, pool: &Vec<usize>) -> (selected: Vec<(usize, usize)>)
        ensures
            forall|i: int|
                0 <= i < selected@.len() ==> {
                    &&& (#[trigger] selected@[i]).0 < pool@.len()
                    &&& selected@[i].1 < pool@[selected@[i].0 as int]
                    &&& selected_by_any(selectors@, selected@[i].0 as int, selected@[i].1 as int)
                },
            forall|p: int, d: int|
                0 <= p < pool@.len() && 0 <= d < pool@[p] && selected_by_any(selectors@, p, d)
                    ==> selected@.contains((p as usize, d as usize)),
            forall|i: int, j: int|
                0 <= i < j < selected@.len() ==> comes_before(selected@[i], selected@[j]),
    {
        let mut selected: Vec<(usize, usize)> = Vec::new();
        let mut p: usize = 0;
        while p < pool.len()
            invariant
                p <= pool@.len(),
                forall|i: int|
                    0 <= i < selected@.len() ==> {
                        &&& (#[trigger] selected@[i]).0 < p
                        &&& selected@[i].1 < pool@[selected@[i].0 as int]
                        &&& selected_by_any(
                            selectors@,
                            selected@[i].0 as int,
                            selected@[i].1 as int,
                        )
                    },
                forall|q: int, d: int|
                    0 <= q < p && 0 <= d < pool@[q] && selected_by_any(selectors@, q, d)
                        ==> selected@.contains((q as usize, d as usize)),
                forall|i: int, j: int|
                    0 <= i < j < selected@.len() ==> comes_before(selected@[i], selected@[j]),
            decreases pool@.len() - p,
        {
            let n: usize = pool[p];
            let mut d: usize = 0;
            while d < n
                invariant
                    d <= n,
                    p < pool@.len(),
                    n == pool@[p as int],
                    forall|i: int|
                        0 <= i < selected@.len() ==> {
                            &&& (#[trigger] selected@[i]).0 <= p
                            &&& selected@[i].0 == p ==> selected@[i].1 < d
                            &&& selected@[i].1 < pool@[selected@[i].0 as int]
                            &&& selected_by_any(
                                selectors@,
                                selected@[i].0 as int,
                                selected@[i].1 as int,
                            )
                        },
                    forall|q: int, e: int|
                        0 <= q < p && 0 <= e < pool@[q] && selected_by_any(selectors@, q, e)
                            ==> selected@.contains((q as usize, e as usize)),
                    forall|e: int|
                        0 <= e < d && selected_by_any(selectors@, p as int, e)
                            ==> selected@.contains((p, e as usize)),
                    forall|i: int, j: int|
                        0 <= i < j < selected@.len() ==> comes_before(selected@[i], selected@[j]),
                decreases n - d,
            {
                if Selector::any_matches(selectors, p, d) {
                    let ghost before = selected@;
                    selected.push((p, d));
                    proof {
                        assert(selected@[before.len() as int] == (p, d));
                        assert forall|q: int, e: int|
                            0 <= q < p && 0 <= e < pool@[q] && selected_by_any(
                                selectors@,
                                q,
                                e,
                            ) implies selected@.contains((q as usize, e as usize)) by {
                            let at = choose|at: int|
                                0 <= at < before.len() && before[at] == (q as usize, e as usize);
                            assert(selected@[at] == (q as usize, e as usize));
                        }
                        assert forall|e: int|
                            0 <= e < d + 1 && selected_by_any(
                                selectors@,
                                p as int,
                                e,
                            ) implies selected@.contains((p, e as usize)) by {
                            if e < d {
                                let at = choose|at: int|
                                    0 <= at < before.len() && before[at] == (p, e as usize);
                                assert(selected@[at] == (p, e as usize));
                            }
                        }
                    }
                }
                d += 1;
            }
            p += 1;
        }
        selected
    }
}

/// Whether the device `a` comes before the device `b` in a pool: on an
/// earlier platform, or earlier on the same.
pub open spec fn comes_before(a: (usize, usize), b: (usize, usize)) -> bool {
    a.0 < b.0 || (a.0 == b.0 && a.1 < b.1)
}

/// Whether `selected` holds the devices of the pool that any of the
/// selectors matches, each once and in the order of the pool.
pub open spec fn is_selection(
    selected: Seq<(usize, usize)>,
    selectors: Seq<Selector>,
    pool: Seq<usize>,
) -> bool {
    &&& forall|i: int|
        0 <= i < selected.len() ==> {
            &&& (#[trigger] selected[i]).0 < pool.len()
            &&& selected[i].1 < pool[selected[i].0 as int]
            &&& selected_by_any(selectors, selected[i].0 as int, selected[i].1 as int)
        }
    &&& forall|p: int, d: int|
        0 <= p < pool.len() && 0 <= d < pool[p] && selected_by_any(selectors, p, d)
            ==> selected.contains((p as usize, d as usize))
    &&& forall|i: int, j: int|
        0 <= i < j < selected.len() ==> comes_before(selected[i], selected[j])
}

/// Whether any of the selectors matches device `device` of platform `platform`.
pub open spec fn selected_by_any(selectors: Seq<Selector>, platform: int, device: int) -> bool {
    exists|i: int| 0 <= i < selectors.len() && (#[trigger] selectors[i]).selects(platform, device)
}

} // verus!
