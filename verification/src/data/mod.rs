//! Data table operations.

pub mod ddl;
pub mod index;
pub mod query;
pub mod query_laws;
pub mod queue_laws;
pub mod scan;
pub mod ttl;
pub mod base_row;
pub mod row_laws;
pub mod condition;
pub mod claim;
pub mod effects;
pub mod delete_item;
pub mod put_get_item;
pub mod update_item;
pub mod ledger_key;
pub mod transaction_ledger;
pub mod transact_get;
pub mod tie_laws;
pub mod transaction_rows;
pub mod transactions;
pub mod transaction_recovery;
pub mod data_engine;
