use vstd::prelude::*;
use crate::shared::Fighter;

verus! {

/// The admin listing of the stored devices: each by its fingerprint, none
/// with a fighter.
pub fn device_listing(fingerprints: &Vec<String>) -> (res: Vec<Fighter>)
    ensures
        res.len() == fingerprints.len(),
        forall|i: int|
            0 <= i < res.len() ==> res[i].fingerprint@ == fingerprints[i]@ && res[i].fighter is None,
{
    let mut res: Vec<Fighter> = Vec::new();
    let mut i: usize = 0;
    while i < fingerprints.len()
        invariant
            i <= fingerprints.len(),
            res.len() == i,
            forall|j: int|
                0 <= j < i ==> res[j].fingerprint@ == fingerprints[j]@ && res[j].fighter is None,
        decreases fingerprints.len() - i,
    {
        res.push(Fighter { fingerprint: fingerprints[i].clone(), fighter: None });
        i = i + 1;
    }
    res
}

} // verus!
