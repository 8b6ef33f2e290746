pub mod bytes;
pub mod search;
pub mod text;
pub mod registry;
pub mod stmt_cache;
pub mod pool;
pub mod acquire;
pub mod upkeep;
pub mod hash;
pub mod pg_statement;
pub mod decltype;
pub mod predicates;
pub mod literals;
pub mod uri;
pub mod inserts;
pub mod upsert;
pub mod prepare_text;
pub mod prepare;
pub mod retry;
pub mod exec;
pub mod step;
pub mod params;
pub mod machine_id;
pub mod metadata;
pub mod expand;
pub mod value;
pub mod lifecycle;
pub mod drain;
pub mod strings;
pub mod backtrace;
pub mod runtime;
pub mod c_strings;
pub mod bind;
