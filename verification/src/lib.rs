//! Runtime capability analysis of quantum programs.
//!
//! The analysis reads the flattened intermediate representation of a program
//! (`fir`) and tells, for every callable and every choice of dynamic input
//! parameters, which capabilities running the callable requires of the target
//! (`analyzer`, `propagation`). It also finds the callables that are on a cycle
//! of the call graph of a package (`cycle_detection`).
//!
//! What each function computes is stated over mathematical models
//! (`analysis_model`, `propagation_model`, `cycle_model`) and proved; what
//! holds of every input is proved in `analysis_laws`, `propagation_laws`,
//! `cycle_laws` and `reach_laws`. The models bound how deep a walk, a resolution, an
//! evaluation and the analysis may be nested; that no bound is reached in a
//! package in which no part contains itself is proved in `budget_laws`,
//! `eval_budget_laws` and `analysis_laws`.

pub mod analysis_laws;
pub mod analysis_model;
pub mod analyzer;
pub mod budget_laws;
pub mod capability;
pub mod circuit;
pub mod compute_props;
pub mod cycle_detection;
pub mod cycle_laws;
pub mod cycle_model;
pub mod eval_budget_laws;
pub mod fir;
pub mod foundational;
pub mod fx;
pub mod index_map;
pub mod propagation;
pub mod propagation_laws;
pub mod propagation_model;
pub mod reach_laws;
pub mod rir;
pub mod rt_props;
pub mod selector;
pub mod store;
