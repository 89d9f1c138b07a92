//! The primitive values that the value model wraps, shown on small examples.

use vstd::prelude::*;

verus! {

/// Adds one to the number given.
pub fn add_one(x: i32) -> (r: i32)
    requires
        x < i32::MAX,
    ensures
        r == x + 1,
{
    x + 1
}

/// Returns its argument.
fn identity(x: i32) -> (r: i32)
    ensures
        r == x,
{
    x
}

/// The scalar kinds: booleans, characters, which are Unicode scalar values
/// and not bytes, and integers of a fixed or of the machine's width.
pub fn types() {
    let x: bool = true;
    let y: bool = false;
    assert(x && !y);

    let x: char = 'x';
    let two_hearts: char = '💕';
    assert(x as u32 == 0x78);
    assert(two_hearts as u32 == 0x1F495);
    assert(x < two_hearts);

    let x: i32 = 42;
    let z: isize = 10;
    assert(x as int + z as int == 52);
}

/// A slice of a whole array, and one of a part of it.
pub fn slices() {
    let a: [i32; 5] = [0, 1, 2, 3, 4];
    let complete: &[i32] = a.as_slice();
    let middle: &[i32] = &a[1..4];
    assert(complete@ == seq![0i32, 1, 2, 3, 4]);
    assert(middle@ == seq![1i32, 2, 3]);
}

/// A function is a value: bound to a name, it is called through that name.
pub fn fn_pointers() {
    let x = identity;
    let y: i32 = x(3);
    assert(y == 3);
    let f = add_one;
    let six: i32 = f(5);
    assert(six == 6);
}

} // verus!
