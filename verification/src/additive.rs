//! The element types of the tree: what a type has to offer so that the tree
//! can add its values up, and the primitive integer types offering it.

use vstd::prelude::*;

verus! {

/// A type whose values the tree can add up. Each value stands for an integer;
/// the type has a zero, and adds and subtracts in place, exactly, as long as
/// the result is one of the integers that it can represent.
pub trait Additive: Copy {
    /// The integer that the value stands for.
    spec fn value(self) -> int;

    /// Whether the type has a value that stands for `v`.
    spec fn representable(v: int) -> bool;

    /// The value that stands for zero.
    fn zero() -> (z: Self)
        ensures
            z.value() == 0,
    ;

    /// Adds `rhs` to the value in place.
    fn add_assign(&mut self, rhs: Self)
        requires
            Self::representable(old(self).value() + rhs.value()),
        ensures
            final(self).value() == old(self).value() + rhs.value(),
    ;

    /// Subtracts `rhs` from the value in place.
    fn sub_assign(&mut self, rhs: Self)
        requires
            Self::representable(old(self).value() - rhs.value()),
        ensures
            final(self).value() == old(self).value() - rhs.value(),
    ;
}

/// Calls `num_traits::Zero::zero` for `i8`, which returns the literal `0`.
#[verifier::external_body]
fn zero_i8() -> (z: i8)
    ensures
        z == 0,
{
    <i8 as num_traits::Zero>::zero()
}

impl Additive for i8 {
    open spec fn value(self) -> int {
        self as int
    }

    open spec fn representable(v: int) -> bool {
        i8::MIN <= v <= i8::MAX
    }

    fn zero() -> (z: Self) {
        zero_i8()
    }

    fn add_assign(&mut self, rhs: Self) {
        *self += rhs;
    }

    fn sub_assign(&mut self, rhs: Self) {
        *self -= rhs;
    }
}

/// Calls `num_traits::Zero::zero` for `i16`, which returns the literal `0`.
#[verifier::external_body]
fn zero_i16() -> (z: i16)
    ensures
        z == 0,
{
    <i16 as num_traits::Zero>::zero()
}

impl Additive for i16 {
    open spec fn value(self) -> int {
        self as int
    }

    open spec fn representable(v: int) -> bool {
        i16::MIN <= v <= i16::MAX
    }

    fn zero() -> (z: Self) {
        zero_i16()
    }

    fn add_assign(&mut self, rhs: Self) {
        *self += rhs;
    }

    fn sub_assign(&mut self, rhs: Self) {
        *self -= rhs;
    }
}

/// Calls `num_traits::Zero::zero` for `i32`, which returns the literal `0`.
#[verifier::external_body]
fn zero_i32() -> (z: i32)
    ensures
        z == 0,
{
    <i32 as num_traits::Zero>::zero()
}

impl Additive for i32 {
    open spec fn value(self) -> int {
        self as int
    }

    open spec fn representable(v: int) -> bool {
        i32::MIN <= v <= i32::MAX
    }

    fn zero() -> (z: Self) {
        zero_i32()
    }

    fn add_assign(&mut self, rhs: Self) {
        *self += rhs;
    }

    fn sub_assign(&mut self, rhs: Self) {
        *self -= rhs;
    }
}

/// Calls `num_traits::Zero::zero` for `i64`, which returns the literal `0`.
#[verifier::external_body]
fn zero_i64() -> (z: i64)
    ensures
        z == 0,
{
    <i64 as num_traits::Zero>::zero()
}

impl Additive for i64 {
    open spec fn value(self) -> int {
        self as int
    }

    open spec fn representable(v: int) -> bool {
        i64::MIN <= v <= i64::MAX
    }

    fn zero() -> (z: Self) {
        zero_i64()
    }

    fn add_assign(&mut self, rhs: Self) {
        *self += rhs;
    }

    fn sub_assign(&mut self, rhs: Self) {
        *self -= rhs;
    }
}

/// Calls `num_traits::Zero::zero` for `i128`, which returns the literal `0`.
#[verifier::external_body]
fn zero_i128() -> (z: i128)
    ensures
        z == 0,
{
    <i128 as num_traits::Zero>::zero()
}

impl Additive for i128 {
    open spec fn value(self) -> int {
        self as int
    }

    open spec fn representable(v: int) -> bool {
        i128::MIN <= v <= i128::MAX
    }

    fn zero() -> (z: Self) {
        zero_i128()
    }

    fn add_assign(&mut self, rhs: Self) {
        *self += rhs;
    }

    fn sub_assign(&mut self, rhs: Self) {
        *self -= rhs;
    }
}

/// Calls `num_traits::Zero::zero` for `isize`, which returns the literal `0`.
#[verifier::external_body]
fn zero_isize() -> (z: isize)
    ensures
        z == 0,
{
    <isize as num_traits::Zero>::zero()
}

impl Additive for isize {
    open spec fn value(self) -> int {
        self as int
    }

    open spec fn representable(v: int) -> bool {
        isize::MIN <= v <= isize::MAX
    }

    fn zero() -> (z: Self) {
        zero_isize()
    }

    fn add_assign(&mut self, rhs: Self) {
        *self += rhs;
    }

    fn sub_assign(&mut self, rhs: Self) {
        *self -= rhs;
    }
}

/// Calls `num_traits::Zero::zero` for `u8`, which returns the literal `0`.
#[verifier::external_body]
fn zero_u8() -> (z: u8)
    ensures
        z == 0,
{
    <u8 as num_traits::Zero>::zero()
}

impl Additive for u8 {
    open spec fn value(self) -> int {
        self as int
    }

    open spec fn representable(v: int) -> bool {
        u8::MIN <= v <= u8::MAX
    }

    fn zero() -> (z: Self) {
        zero_u8()
    }

    fn add_assign(&mut self, rhs: Self) {
        *self += rhs;
    }

    fn sub_assign(&mut self, rhs: Self) {
        *self -= rhs;
    }
}

/// Calls `num_traits::Zero::zero` for `u16`, which returns the literal `0`.
#[verifier::external_body]
fn zero_u16() -> (z: u16)
    ensures
        z == 0,
{
    <u16 as num_traits::Zero>::zero()
}

impl Additive for u16 {
    open spec fn value(self) -> int {
        self as int
    }

    open spec fn representable(v: int) -> bool {
        u16::MIN <= v <= u16::MAX
    }

    fn zero() -> (z: Self) {
        zero_u16()
    }

    fn add_assign(&mut self, rhs: Self) {
        *self += rhs;
    }

    fn sub_assign(&mut self, rhs: Self) {
        *self -= rhs;
    }
}

/// Calls `num_traits::Zero::zero` for `u32`, which returns the literal `0`.
#[verifier::external_body]
fn zero_u32() -> (z: u32)
    ensures
        z == 0,
{
    <u32 as num_traits::Zero>::zero()
}

impl Additive for u32 {
    open spec fn value(self) -> int {
        self as int
    }

    open spec fn representable(v: int) -> bool {
        u32::MIN <= v <= u32::MAX
    }

    fn zero() -> (z: Self) {
        zero_u32()
    }

    fn add_assign(&mut self, rhs: Self) {
        *self += rhs;
    }

    fn sub_assign(&mut self, rhs: Self) {
        *self -= rhs;
    }
}

/// Calls `num_traits::Zero::zero` for `u64`, which returns the literal `0`.
#[verifier::external_body]
fn zero_u64() -> (z: u64)
    ensures
        z == 0,
{
    <u64 as num_traits::Zero>::zero()
}

impl Additive for u64 {
    open spec fn value(self) -> int {
        self as int
    }

    open spec fn representable(v: int) -> bool {
        u64::MIN <= v <= u64::MAX
    }

    fn zero() -> (z: Self) {
        zero_u64()
    }

    fn add_assign(&mut self, rhs: Self) {
        *self += rhs;
    }

    fn sub_assign(&mut self, rhs: Self) {
        *self -= rhs;
    }
}

/// Calls `num_traits::Zero::zero` for `u128`, which returns the literal `0`.
#[verifier::external_body]
fn zero_u128() -> (z: u128)
    ensures
        z == 0,
{
    <u128 as num_traits::Zero>::zero()
}

impl Additive for u128 {
    open spec fn value(self) -> int {
        self as int
    }

    open spec fn representable(v: int) -> bool {
        u128::MIN <= v <= u128::MAX
    }

    fn zero() -> (z: Self) {
        zero_u128()
    }

    fn add_assign(&mut self, rhs: Self) {
        *self += rhs;
    }

    fn sub_assign(&mut self, rhs: Self) {
        *self -= rhs;
    }
}

/// Calls `num_traits::Zero::zero` for `usize`, which returns the literal `0`.
#[verifier::external_body]
fn zero_usize() -> (z: usize)
    ensures
        z == 0,
{
    <usize as num_traits::Zero>::zero()
}

impl Additive for usize {
    open spec fn value(self) -> int {
        self as int
    }

    open spec fn representable(v: int) -> bool {
        usize::MIN <= v <= usize::MAX
    }

    fn zero() -> (z: Self) {
        zero_usize()
    }

    fn add_assign(&mut self, rhs: Self) {
        *self += rhs;
    }

    fn sub_assign(&mut self, rhs: Self) {
        *self -= rhs;
    }
}

} // verus!
