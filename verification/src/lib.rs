//! Trial-division judging of integers: prime, composite with its factors, or
//! outside the domain, together with the state a front end keeps between
//! refreshes.

pub mod arrange;
pub mod display;
pub mod divisors;
pub mod judger;
pub mod text;
pub mod verdict;
