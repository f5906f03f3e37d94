use vstd::prelude::*;

verus! {

/// An account.
#[derive(Debug)]
pub struct User {
    pub active: bool,
    pub username: String,
    pub email: String,
    pub sign_in_count: u64,
}

impl Clone for User {
    /// A second account with the same entries.
    fn clone(&self) -> (copy: Self)
        ensures
            copy == *self,
    {
        User {
            active: self.active,
            username: self.username.clone(),
            email: self.email.clone(),
            sign_in_count: self.sign_in_count,
        }
    }
}

impl User {
    /// The user's name.
    pub fn get_name(&self) -> (name: &str)
        ensures
            name@ == self.username@,
    {
        self.username.as_str()
    }
}

/// The area of a rectangle from its two sides.
pub fn area(width: u32, height: u32) -> (area: u32)
    requires
        width * height <= u32::MAX,
    ensures
        area == width * height,
{
    width * height
}

/// A rectangle with whole-number sides.
#[derive(Debug)]
pub struct Rectangle {
    pub width: u32,
    pub height: u32,
}

/// The area of `rectangle`.
pub fn area_with_struct(rectangle: &Rectangle) -> (area: u32)
    requires
        rectangle.width * rectangle.height <= u32::MAX,
    ensures
        area == rectangle.width * rectangle.height,
{
    rectangle.width * rectangle.height
}

impl Clone for Rectangle {
    /// A second rectangle with the same sides.
    fn clone(&self) -> (copy: Self)
        ensures
            copy == *self,
    {
        Rectangle { width: self.width, height: self.height }
    }
}

impl Rectangle {
    /// The area of this rectangle.
    pub fn area_in_struct(&self) -> (area: u32)
        requires
            self.width * self.height <= u32::MAX,
        ensures
            area == self.width * self.height,
    {
        &self.width * &self.height
    }

    /// Whether `other` fits inside this rectangle with room to spare on
    /// both sides.
    pub fn can_hold(&self, other: &Rectangle) -> (fits: bool)
        ensures
            fits == (self.width > other.width && self.height > other.height),
    {
        self.width > other.width && self.height > other.height
    }

    /// The rectangle with the given sides.
    pub fn new(width: u32, height: u32) -> (rectangle: Self)
        ensures
            rectangle.width == width,
            rectangle.height == height,
    {
        Self { width, height }
    }

    /// The square with the given side.
    pub fn square(size: u32) -> (rectangle: Self)
        ensures
            rectangle.width == size,
            rectangle.height == size,
    {
        Self::new(size, size)
    }
}

/// A new, active account that has signed in once.
pub fn build_user(email: String, username: String) -> (user: User)
    ensures
        user.active,
        user.username == username,
        user.email == email,
        user.sign_in_count == 1,
{
    User { active: true, username, email, sign_in_count: 1 }
}

} // verus!
