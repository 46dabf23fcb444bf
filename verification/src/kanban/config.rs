//! Where the board database lives.

use vstd::prelude::*;
use crate::kanban::error::{plain_error, AppError, ErrorKind};
use crate::paths::{path_from, path_from_text, path_join, path_joined};

verus! {

/// Resolves the board database path: the `--db` override when given, else
/// `~/.areum/kanban/kanban.db` under `home`. Without either there is no
/// place for the board, which is a configuration error rather than a
/// silent fallback to a relative path.
pub fn resolve_db_path(flag: Option<&str>, home: Option<&str>) -> (r: Result<std::path::PathBuf, AppError>)
    ensures
        match (flag, home) {
            (Some(f), _) => r == Ok::<std::path::PathBuf, AppError>(path_from_text(f@)),
            (None, Some(h)) => r == Ok::<std::path::PathBuf, AppError>(path_joined(h@, ".areum/kanban/kanban.db"@)),
            (None, None) => r matches Err(e) && plain_error(
                ErrorKind::Config,
                "HOME is not set; cannot locate ~/.areum/kanban/kanban.db (pass --db)"@,
                e,
            ),
        },
{
    match flag {
        Some(f) => Ok(path_from(f)),
        None => match home {
            Some(h) => Ok(path_join(h, ".areum/kanban/kanban.db")),
            None => Err(AppError::new(
                ErrorKind::Config,
                "HOME is not set; cannot locate ~/.areum/kanban/kanban.db (pass --db)",
            )),
        },
    }
}

} // verus!
