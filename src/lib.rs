//! A page that, once mounted, sends its visitor to a fixed address.
//!
//! The page renders a fragment holding one inline script; running that
//! script assigns the browsing context's location to the destination.
//! `markup` models a rendered fragment and its serialised text, and
//! `redirect` builds the page and states what it does when it runs.
pub mod markup;
pub mod redirect;
