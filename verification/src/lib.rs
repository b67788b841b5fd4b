//! The verified core of a CSV task service: parsing uploaded CSV data, splitting its rows
//! into groups of recipients, filtering columns, composing the e-mails that carry the
//! results, and the decisions around the SFTP session.
pub mod record;
pub mod table;
pub mod task;
pub mod email;
pub mod sftp;
pub mod repository;
