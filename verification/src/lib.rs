//! The integer and decision logic of an attention-based limit-order-book
//! model: the direction decision of the prediction head, the column layout
//! that splits a model dimension into attention heads and joins the heads'
//! outputs again, and the request address of an exchange's order-book
//! endpoint.

pub mod direction;
pub mod heads;
pub mod request;
