//! Verified core of E-OS Control: the parsers, validators and decision logic
//! behind the system, process, network, storage, sound and power views.

pub mod text;
pub mod num;
pub mod netcore;
pub mod labels;
pub mod sys;
pub mod order;
pub mod grouping;
pub mod netcfg;
pub mod procs;
pub mod control;
pub mod messages;
pub mod scope;
pub mod selftest;
pub mod paths;
