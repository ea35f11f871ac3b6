mod config;
mod csv;
mod errors;
mod kind;
mod memdb;
mod model;
mod repo;
mod store;
mod text;

pub use errors::RepoError;
pub use kind::EventKind;
pub use kind::kind_from_code;
pub use kind::kind_code;
pub use model::ParticipationEvent;
pub use model::Student;
pub use model::StudentRow;
pub use model::EventRow;
pub use model::encode_event;
pub use model::decode_event;
pub use model::decode_events;
pub use memdb::Database;
pub use repo::open_database;
pub use repo::open_database_in_memory;
pub use repo::initialize_tables;
pub use repo::add_student;
pub use repo::add_participation_event;
pub use repo::get_students;
pub use repo::get_student_participation_points;
pub use repo::delete_student;
pub use repo::backup_database;
pub use repo::sum_points;
pub use repo::import_roster_csv;
pub use repo::export_roster_csv;
pub use config::AppConfig;
pub use config::render_config;
pub use config::parse_config;
pub use config::file_name_of;
pub use csv::parse_roster_csv;
pub use csv::render_roster_csv;
pub use csv::parse_line;
pub use text::render_u32;
pub use text::parse_u32_digits;
