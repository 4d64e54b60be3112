use vstd::prelude::*;

verus! {

/// Borrows two different elements of one slice mutably at the same time.
pub fn get_two_mut<T>(arr: &mut [T], i: usize, j: usize) -> (pair: Option<(&mut T, &mut T)>)
    ensures
        pair.is_some() <==> i != j && i < old(arr)@.len() && j < old(arr)@.len(),
        pair.is_none() ==> final(arr)@ == old(arr)@,
        pair.is_some() ==> {
            &&& *pair.unwrap().0 == old(arr)@[i as int]
            &&& *pair.unwrap().1 == old(arr)@[j as int]
            &&& final(arr)@ == old(arr)@.update(i as int, *final(pair.unwrap().0)).update(
                j as int,
                *final(pair.unwrap().1),
            )
        },
{
    if i == j || i >= arr.len() || j >= arr.len() {
        return None;
    }
    let (a, b) = if i < j {
        let (head, tail) = arr.split_at_mut(j);
        (&mut head[i], &mut tail[0])
    } else {
        let (head, tail) = arr.split_at_mut(i);
        (&mut tail[0], &mut head[j])
    };
    Some((a, b))
}

} // verus!
