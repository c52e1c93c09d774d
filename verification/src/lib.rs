//! Extraction of per-game box-score rows ("gamelogs") from a player's
//! season-statistics HTML page: locating the regular-season and playoff
//! tables, walking their data rows, and coercing each cell into a typed
//! statistic according to a fixed column schema.

pub mod coerce;
pub mod html;
pub mod row;
pub mod season;
pub mod stat;
pub mod text;
