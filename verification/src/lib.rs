//! Verified core of a Cassandra storage backend for a DynamoDB-compatible server.
#![allow(unused_imports)]

pub mod text;
pub mod model;
pub mod error;
pub mod cql;
pub mod command;
pub mod ids;
pub mod cassandra_util;
pub mod gsi_queue;
pub mod data;
pub mod config;
pub mod engine;
pub mod backup_engine;
pub mod create_table;
pub mod delete_table;
pub mod bootstrapper;
pub mod sorting;
pub mod catalog_store;
pub mod admin_store;
pub mod authorization_store;
pub mod credential_store;
