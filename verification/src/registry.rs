//! The process-wide object registry: maps any code address to the unwind
//! records of the object file that covers it.  Registered ranges are kept
//! sorted and disjoint, so lookup is a binary search over them.

use vstd::prelude::*;
use crate::entry::{Cie, Fde};

verus! {

/// Why a registration was refused.
#[derive(Clone, Copy, PartialEq, Eq, Structural, Debug)]
pub enum RegistryError {
    /// The object's own records are inconsistent (empty range, an FDE
    /// outside the text range or with a dangling CIE index).
    MalformedObject,
    /// The text range overlaps an already registered object.
    OverlappingRange,
}

/// One registered object file: its text range and its unwind records.
#[derive(Clone)]
pub struct RegisteredObject {
    /// Registration handle, for deregistration.
    pub handle: u64,
    /// First covered code address.
    pub text_start: u64,
    /// First address past the covered range.
    pub text_end: u64,
    /// The object's CIE table; FDEs refer into it by index.
    pub cies: Vec<Cie>,
    pub fdes: Vec<Fde>,
}

impl RegisteredObject {
    /// The records are internally consistent: a non-empty text range, every
    /// CIE usable, every FDE inside the text range with a live CIE index.
    pub open spec fn wf(self) -> bool {
        &&& self.text_start < self.text_end
        &&& forall|i: int| 0 <= i < self.cies.len() ==> (#[trigger] self.cies[i]).wf()
        &&& forall|i: int|
            0 <= i < self.fdes.len() ==> {
                let f = #[trigger] self.fdes[i];
                &&& f.wf()
                &&& f.cie_index < self.cies.len()
                &&& self.text_start <= f.initial_location
                &&& f.initial_location + f.address_range <= self.text_end
            }
    }

    /// Whether `pc` lies in the object's text range.
    pub open spec fn spec_covers(self, pc: u64) -> bool {
        self.text_start <= pc < self.text_end
    }
}

/// The registry: objects sorted by text range, ranges pairwise disjoint,
/// handles unique and below the next handle to be issued.
pub struct ObjectRegistry {
    pub objects: Vec<RegisteredObject>,
    pub next_handle: u64,
}

impl ObjectRegistry {
    pub open spec fn wf(self) -> bool {
        &&& forall|i: int| 0 <= i < self.objects.len() ==> (#[trigger] self.objects[i]).wf()
        &&& forall|i: int, j: int|
            0 <= i < j < self.objects.len() ==> (#[trigger] self.objects[i]).text_end <= (
            #[trigger] self.objects[j]).text_start
        &&& forall|i: int|
            0 <= i < self.objects.len() ==> (#[trigger] self.objects[i]).handle
                < self.next_handle
        &&& forall|i: int, j: int|
            0 <= i < j < self.objects.len() ==> (#[trigger] self.objects[i]).handle != (
            #[trigger] self.objects[j]).handle
    }

    /// Some registered object holds an FDE covering `pc`.
    pub open spec fn spec_has_fde(self, pc: u64) -> bool {
        exists|i: int, j: int|
            0 <= i < self.objects.len() && 0 <= j < (#[trigger] self.objects[i]).fdes.len() && (
            #[trigger] self.objects[i].fdes[j]).spec_covers(pc)
    }

    /// An empty registry.
    pub fn new() -> (r: ObjectRegistry)
        ensures
            r.wf(),
            r.objects@.len() == 0,
    {
        ObjectRegistry { objects: Vec::new(), next_handle: 0 }
    }

    /// Registers an object's unwind records for its text range.  Succeeds
    /// exactly when the records are consistent, the range overlaps no
    /// registered object, and a handle can still be issued; the new entry
    /// is spliced in at its sorted position.
    #[verifier::loop_isolation(false)]
    pub fn register(&mut self, obj: RegisteredObject) -> (r: Result<u64, RegistryError>)
        requires
            old(self).wf(),
        ensures
            final(self).wf(),
            match r {
                Ok(h) => {
                    &&& obj.wf()
                    &&& h == old(self).next_handle
                    &&& exists|k: int|
                        0 <= k <= old(self).objects@.len() && final(self).objects@ == #[trigger] old(
                            self,
                        ).objects@.insert(
                            k,
                            (RegisteredObject {
                                handle: h,
                                text_start: obj.text_start,
                                text_end: obj.text_end,
                                cies: obj.cies,
                                fdes: obj.fdes,
                            }),
                        )
                },
                Err(RegistryError::MalformedObject) => !obj.wf() && *final(self) == *old(self),
                Err(RegistryError::OverlappingRange) => *final(self) == *old(self) && (obj.wf()
                    ==> old(self).next_handle == u64::MAX || exists|i: int|
                    0 <= i < old(self).objects@.len() && !((#[trigger] old(
                        self,
                    ).objects@[i]).text_end <= obj.text_start || obj.text_end <= old(
                        self,
                    ).objects@[i].text_start)),
            },
    {
        if !validate_object(&obj) {
            return Err(RegistryError::MalformedObject);
        }
        if self.next_handle == u64::MAX {
            // No handle left to issue; refuse as if the space were taken.
            return Err(RegistryError::OverlappingRange);
        }
        // Find the insertion point: past every object that ends at or
        // before the new range's start.
        let n = self.objects.len();
        let mut k: usize = 0;
        while k < n && self.objects[k].text_end <= obj.text_start
            invariant
                k <= n,
                forall|i: int|
                    0 <= i < k ==> (#[trigger] self.objects@[i]).text_end <= obj.text_start,
            decreases n - k,
        {
            k += 1;
        }
        if k < n && self.objects[k].text_start < obj.text_end {
            return Err(RegistryError::OverlappingRange);
        }
        let h = self.next_handle;
        let inserted = RegisteredObject {
            handle: h,
            text_start: obj.text_start,
            text_end: obj.text_end,
            cies: obj.cies,
            fdes: obj.fdes,
        };
        self.next_handle = h + 1;
        self.objects.insert(k, inserted);
        proof {
            let s_new = self.objects@;
            let s_old = old(self).objects@;
            assert forall|i: int, j: int| 0 <= i < j < s_new.len() implies (
            #[trigger] s_new[i]).text_end <= (#[trigger] s_new[j]).text_start by {
                if i < k && j < k {
                    assert(s_new[i] == s_old[i] && s_new[j] == s_old[j]);
                } else if i < k && j == k {
                    assert(s_new[i] == s_old[i]);
                } else if i < k && j > k {
                    assert(s_new[i] == s_old[i] && s_new[j] == s_old[j - 1]);
                } else if i == k {
                    assert(s_new[j] == s_old[j - 1]);
                    if j - 1 > k as int {
                        assert(s_old[k as int].text_start <= s_old[k as int].text_end);
                        assert(s_old[k as int].text_end <= s_old[j - 1].text_start);
                    }
                } else {
                    assert(s_new[i] == s_old[i - 1] && s_new[j] == s_old[j - 1]);
                }
            }
            assert forall|i: int, j: int| 0 <= i < j < s_new.len() implies (
            #[trigger] s_new[i]).handle != (#[trigger] s_new[j]).handle by {
                if i < k && j < k {
                    assert(s_new[i] == s_old[i] && s_new[j] == s_old[j]);
                } else if i < k && j == k {
                    assert(s_new[i] == s_old[i]);
                } else if i < k && j > k {
                    assert(s_new[i] == s_old[i] && s_new[j] == s_old[j - 1]);
                } else if i == k {
                    assert(s_new[j] == s_old[j - 1]);
                } else {
                    assert(s_new[i] == s_old[i - 1] && s_new[j] == s_old[j - 1]);
                }
            }
        }
        Ok(h)
    }

    /// Removes the object registered under `handle`.  Succeeds exactly
    /// when the handle is present; the remaining entries keep their order.
    #[verifier::loop_isolation(false)]
    pub fn deregister(&mut self, handle: u64) -> (r: Result<(), ()>)
        requires
            old(self).wf(),
        ensures
            final(self).wf(),
            match r {
                Ok(()) => exists|k: int|
                    0 <= k < old(self).objects@.len() && (#[trigger] old(
                        self,
                    ).objects@[k]).handle == handle && final(self).objects@ == old(
                        self,
                    ).objects@.remove(k),
                Err(()) => *final(self) == *old(self) && forall|i: int|
                    0 <= i < old(self).objects@.len() ==> (#[trigger] old(
                        self,
                    ).objects@[i]).handle != handle,
            },
    {
        let n = self.objects.len();
        let mut k: usize = 0;
        while k < n && self.objects[k].handle != handle
            invariant
                k <= n,
                forall|i: int| 0 <= i < k ==> (#[trigger] self.objects@[i]).handle != handle,
            decreases n - k,
        {
            k += 1;
        }
        if k == n {
            return Err(());
        }
        self.objects.remove(k);
        proof {
            let s_new = self.objects@;
            let s_old = old(self).objects@;
            assert forall|i: int, j: int| 0 <= i < j < s_new.len() implies (
            #[trigger] s_new[i]).text_end <= (#[trigger] s_new[j]).text_start by {
                if j < k {
                } else if i < k {
                    assert(s_new[j] == s_old[j + 1]);
                } else {
                    assert(s_new[i] == s_old[i + 1] && s_new[j] == s_old[j + 1]);
                }
            }
            assert forall|i: int, j: int| 0 <= i < j < s_new.len() implies (
            #[trigger] s_new[i]).handle != (#[trigger] s_new[j]).handle by {
                if j < k {
                } else if i < k {
                    assert(s_new[j] == s_old[j + 1]);
                } else {
                    assert(s_new[i] == s_old[i + 1] && s_new[j] == s_old[j + 1]);
                }
            }
        }
        Ok(())
    }

    /// Looks up the FDE covering `pc`, by binary search over the
    /// registered ranges: the index of the covering object and of the FDE
    /// within it.  Returns a record exactly when one covers `pc`.
    #[verifier::loop_isolation(false)]
    pub fn find(&self, pc: u64) -> (r: Option<(usize, usize)>)
        requires
            self.wf(),
        ensures
            match r {
                Some((i, j)) => {
                    &&& i < self.objects@.len()
                    &&& j < self.objects@[i as int].fdes@.len()
                    &&& self.objects@[i as int].fdes@[j as int].spec_covers(pc)
                },
                None => !self.spec_has_fde(pc),
            },
    {
        let mut lo: usize = 0;
        let mut hi: usize = self.objects.len();
        loop
            invariant
                lo <= hi <= self.objects@.len(),
                forall|i: int|
                    0 <= i < self.objects@.len() && !(lo <= i < hi) ==> !(
                    #[trigger] self.objects@[i]).spec_covers(pc),
            decreases hi - lo,
        {
            if lo == hi {
                proof {
                    assert forall|i: int, j: int|
                        0 <= i < self.objects@.len() && 0 <= j < (#[trigger] self.objects@[i]).fdes@.len()
                            implies !(#[trigger] self.objects@[i].fdes@[j]).spec_covers(
                        pc,
                    ) by {
                        assert(self.objects@[i].wf());
                    }
                }
                return None;
            }
            let mid = lo + (hi - lo) / 2;
            let o_start = self.objects[mid].text_start;
            let o_end = self.objects[mid].text_end;
            if o_end <= pc {
                proof {
                    assert forall|i: int| 0 <= i <= mid implies !(
                    #[trigger] self.objects@[i]).spec_covers(pc) by {
                        if i < mid {
                            assert(self.objects@[i].text_end <= self.objects@[mid as int].text_start);
                        }
                    }
                }
                lo = mid + 1;
            } else if pc < o_start {
                proof {
                    assert forall|i: int| mid <= i < self.objects@.len() implies !(
                    #[trigger] self.objects@[i]).spec_covers(pc) by {
                        if i > mid {
                            assert(self.objects@[mid as int].text_end
                                <= self.objects@[i].text_start);
                        }
                    }
                }
                hi = mid;
            } else {
                // The object covers pc; scan its FDE table.
                let obj = &self.objects[mid];
                let nf = obj.fdes.len();
                let mut j: usize = 0;
                loop
                    invariant
                        j <= nf,
                        nf == obj.fdes@.len(),
                        forall|t: int| 0 <= t < j ==> !(#[trigger] obj.fdes@[t]).spec_covers(pc),
                    decreases nf - j,
                {
                    if j == nf {
                        proof {
                            assert forall|i: int, t: int|
                                0 <= i < self.objects@.len() && 0 <= t < (
                                #[trigger] self.objects@[i]).fdes@.len() implies !(
                            #[trigger] self.objects@[i].fdes@[t]).spec_covers(pc) by {
                                assert(self.objects@[i].wf());
                                if i != mid {
                                    assert(!self.objects@[i].spec_covers(pc));
                                }
                            }
                        }
                        return None;
                    }
                    if obj.fdes[j].covers(pc) {
                        return Some((mid, j));
                    }
                    j += 1;
                }
            }
        }
    }
}

/// Checks the consistency `RegisteredObject::wf` describes.
#[verifier::loop_isolation(false)]
fn validate_object(obj: &RegisteredObject) -> (r: bool)
    ensures
        r == obj.wf(),
{
    if obj.text_start >= obj.text_end {
        return false;
    }
    let nc = obj.cies.len();
    let mut i: usize = 0;
    while i < nc
        invariant
            i <= nc,
            nc == obj.cies@.len(),
            forall|t: int| 0 <= t < i ==> (#[trigger] obj.cies@[t]).wf(),
        decreases nc - i,
    {
        let c = &obj.cies[i];
        if c.code_align < 1 || c.ra_register >= crate::arch::ADDRESSABLE_REGS {
            return false;
        }
        i += 1;
    }
    let nf = obj.fdes.len();
    let mut j: usize = 0;
    while j < nf
        invariant
            j <= nf,
            nf == obj.fdes@.len(),
            forall|t: int|
                0 <= t < j ==> {
                    let f = #[trigger] obj.fdes@[t];
                    &&& f.wf()
                    &&& f.cie_index < obj.cies@.len()
                    &&& obj.text_start <= f.initial_location
                    &&& f.initial_location + f.address_range <= obj.text_end
                },
        decreases nf - j,
    {
        let f = &obj.fdes[j];
        if f.address_range < 1 {
            return false;
        }
        if f.initial_location > u64::MAX - f.address_range {
            return false;
        }
        if f.cie_index >= obj.cies.len() {
            return false;
        }
        if f.initial_location < obj.text_start || f.initial_location + f.address_range
            > obj.text_end {
            return false;
        }
        j += 1;
    }
    true
}

} // verus!
