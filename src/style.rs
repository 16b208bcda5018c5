//! Styling records: what decides whether a feature shows and its color.

use vstd::prelude::*;

verus! {

/// An expression in the styling language, kept as its source text.
pub type Expression = String;

/// A color expression, kept as its source text.
pub type ColorExpression = String;

/// Conditions evaluated in order: pairs of a condition and a result.
#[derive(PartialEq, Eq, Clone, Debug)]
pub struct Conditions {
    pub conditions: Option<Vec<(Expression, Expression)>>,
}

/// Whether a feature shows: a boolean, an expression, or conditions.
#[derive(PartialEq, Eq, Clone, Debug)]
pub enum ShowProperty {
    Boolean(bool),
    Expression(Expression),
    Conditions(Conditions),
}

impl Default for ShowProperty {
    /// Every feature shows.
    fn default() -> (r: ShowProperty)
        ensures
            r == ShowProperty::Boolean(true),
    {
        ShowProperty::Boolean(true)
    }
}

/// A feature's color: a color expression, or conditions.
#[derive(PartialEq, Eq, Clone, Debug)]
pub enum ColorProperty {
    Color(ColorExpression),
    Conditions(Conditions),
}

impl Default for ColorProperty {
    /// White.
    fn default() -> (r: ColorProperty)
        ensures
            r matches ColorProperty::Color(c) && c@ == "#FFFFFF"@,
    {
        ColorProperty::Color("#FFFFFF".to_owned())
    }
}

/// The `show` property of a point cloud style.
pub type OneOfShow = ShowProperty;

/// The `color` property of a point cloud style.
pub type OneOfColor = ColorProperty;

/// A boolean, or an expression that evaluates to one.
#[derive(PartialEq, Eq, Clone, Debug)]
pub enum BooleanExpression {
    Boolean(bool),
    Expression(Expression),
}

} // verus!
