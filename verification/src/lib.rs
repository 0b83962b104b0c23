//! Front end of a weighted simple linear regression on adherence proportions:
//! the checks, plans and table lookups that surround the numeric fit, stated
//! over integers and text and proved against their contracts.

pub mod error;
pub mod design;
pub mod weighting;
pub mod interval;
pub mod text;
pub mod count;
pub mod columns;
pub mod ingest;
pub mod pairs;

pub use crate::columns::{find_column, resolve_columns, ColumnLayout};
pub use crate::count::{parse_count, CountError};
pub use crate::design::{check_design, degrees_of_freedom, FitShape};
pub use crate::error::{Field, ModelError};
pub use crate::ingest::{
    extract_row, extract_rows, field_text, gather_denominators, read_rows, RawRow, RawRows,
    RawTable,
};
pub use crate::interval::{critical_value, z_from, DEFAULT_Z_MILLI};
pub use crate::pairs::{parse_counts, split_pair, split_pairs, PairText};
pub use crate::weighting::{floor_mass, plan_weights, WeightPlan, Weighting};
