use vstd::prelude::*;

pub mod analytics;
pub mod body;
pub mod fields;
pub mod geometry;
pub mod io;
pub mod lbm;
pub mod md;
pub mod mechanism;
pub mod multiphysics;
pub mod obj;
pub mod rigid;
pub mod scalars;
pub mod seqs;
pub mod spatial;
pub mod sph;
pub mod text;
pub mod viz;
