//! A small code judge: deterministic line-based static analysis of source
//! text, plus a judgement pipeline that builds a prompt for a text-completion
//! capability and parses its reply into a validated `Judgement`.

pub mod analyzer;
pub mod judgement;
pub mod model;
pub mod review;
pub mod score;
pub mod text;
