//! The statements and commands of the administrative tasks: listing and
//! dropping tables, counting rows, dumping and restoring the database.
//!
//! Nothing here talks to the store or starts a program: each function gives
//! the text that the caller runs.

use vstd::prelude::*;
use vstd::string::StringExecFns;
use crate::batch::{Batch, BatchModel};
use crate::config::Config;
use crate::ingest::{plan_jobs, DEFAULT_POOL_SIZE};
use crate::schema::{schema_statement_texts, schema_statements};
use crate::text::{decimal, push_decimal, push_signed_decimal, signed_decimal, texts};

verus! {

/// The statements that read from the store.
#[derive(Debug, Clone, Copy)]
pub struct PostgresQueriesRead;

/// The statements and commands that change the store.
#[derive(Debug, Clone, Copy)]
pub struct PostgresQueriesWrite;

/// How many jobs a dump or a restore runs where the caller names no number.
pub const DEFAULT_JOBS: i32 = 4;

/// The memory, in kilobytes, that is assumed where it cannot be detected.
pub const ASSUMED_MEMORY_KB: u64 = 16 * 1024 * 1024;

/// From this much memory on, in kilobytes, the middle settings hold.
pub const MIDDLE_MEMORY_KB: u64 = 32 * 1024 * 1024;

/// From this much memory on, in kilobytes, the large settings hold.
pub const LARGE_MEMORY_KB: u64 = 64 * 1024 * 1024;

/// The statement that lists the columns of a table with their types.
pub open spec fn list_columns_query_text(table: Seq<char>) -> Seq<char> {
    "SELECT column_name, data_type FROM information_schema.columns WHERE table_name = '"@
        + table + "';"@
}

/// The statement that counts the rows of a table.
pub open spec fn table_row_count_query_text(table: Seq<char>) -> Seq<char> {
    "SELECT COUNT(*) FROM "@ + table + " "@
}

/// The statement that drops a table if there is one.
pub open spec fn drop_query_text(table: Seq<char>) -> Seq<char> {
    "DROP TABLE IF EXISTS "@ + table + " CASCADE"@
}

/// The statement that drops a table that is known to exist.
pub open spec fn drop_listed_query_text(table: Seq<char>) -> Seq<char> {
    "DROP TABLE "@ + table + " CASCADE"@
}

/// The statement that takes over the collation version of the system.
pub open spec fn fix_collation_query_text(database: Seq<char>) -> Seq<char> {
    "ALTER DATABASE "@ + database + " REFRESH COLLATION VERSION"@
}

/// The file that a dump is written to: `dir/backup_name_time.dump`.
pub open spec fn backup_file_text(
    output_dir: Seq<char>,
    db_name: Seq<char>,
    timestamp: Seq<char>,
) -> Seq<char> {
    output_dir + "/backup_"@ + db_name + "_"@ + timestamp + ".dump"@
}

/// The command that dumps the database into a file.
pub open spec fn backup_command_text(config: Config, jobs: int, file: Seq<char>) -> Seq<char> {
    "pg_dump --host="@ + config.host@ + " --port="@ + decimal(config.port as nat)
        + " --username="@ + config.user@ + " --dbname="@ + config.db_name@ + " --jobs="@
        + signed_decimal(jobs)
        + " --format=custom --no-privileges --no-owner --exclude-table='geometry_columns' --exclude-table='spatial_ref_sys' --exclude-table='raster_columns' --exclude-table='raster_overviews' --file="@
        + file
}

/// The command that restores the data of a dump.
pub open spec fn restore_data_command_text(config: Config, jobs: int, file: Seq<char>) -> Seq<char> {
    "pg_restore --host="@ + config.host@ + " --port="@ + decimal(config.port as nat)
        + " --username="@ + config.user@ + " --dbname="@ + config.db_name@ + " --jobs="@
        + signed_decimal(jobs) + " --data-only --disable-triggers --no-acl --no-comments "@
        + file
}

/// The command that restores the schema of a dump on this machine.
pub open spec fn restore_schema_local_command_text(config: Config, jobs: int, file: Seq<char>) -> Seq<char> {
    "pg_restore --host="@ + config.host@ + " --port="@ + decimal(config.port as nat)
        + " --username="@ + config.user@ + " --dbname="@ + config.db_name@ + " --jobs="@
        + signed_decimal(jobs) + " --schema-only --clean --if-exists --no-acl --no-comments "@
        + file
}

/// The command that restores the schema of a dump inside a container.
pub open spec fn restore_schema_container_command_text(container: Seq<char>, config: Config, jobs: int, file: Seq<char>) -> Seq<char> {
    "docker exec -i "@ + container + " pg_restore --host="@ + config.host@ + " --port="@
        + decimal(config.port as nat) + " --username="@ + config.user@ + " --dbname="@
        + config.db_name@ + " --jobs="@ + signed_decimal(jobs)
        + " --schema-only --clean --if-exists --no-acl --no-comments "@ + file
}

/// The statement that lists the tables of the public schema without those
/// of the spatial extension.
pub open spec fn user_tables_query_text() -> Seq<char> {
    "SELECT table_name FROM information_schema.tables WHERE table_schema = 'public' AND table_type = 'BASE TABLE' AND table_name NOT IN ('geometry_columns', 'spatial_ref_sys', 'raster_columns', 'raster_overviews')"@
}

/// The statement that lists every table of the public schema.
pub open spec fn all_tables_query_text() -> Seq<char> {
    "SELECT table_name FROM information_schema.tables WHERE table_schema = 'public';"@
}

/// The statement that lists tables: the user's own ones unless the caller
/// asks for all.
pub open spec fn list_tables_query_text(only_user_tables: Option<bool>) -> Seq<char> {
    if only_user_tables == Some(false) {
        all_tables_query_text()
    } else {
        user_tables_query_text()
    }
}

/// The statement that asks whether the spatial extension is installed.
pub open spec fn postgis_support_query_text() -> Seq<char> {
    "SELECT EXISTS (SELECT 1 FROM pg_extension WHERE extname = 'postgis')"@
}

/// The command that restores the schema of a dump, inside the container
/// where one is named.
pub open spec fn restore_schema_command_text(
    container: Option<Seq<char>>,
    config: Config,
    jobs: int,
    file: Seq<char>,
) -> Seq<char> {
    match container {
        Some(name) => restore_schema_container_command_text(name, config, jobs, file),
        None => restore_schema_local_command_text(config, jobs, file),
    }
}

/// The working memory of a restore on a machine with that much memory.
pub open spec fn work_mem_text(total_kb: u64) -> Seq<char> {
    if total_kb >= LARGE_MEMORY_KB {
        "512MB"@
    } else if total_kb >= MIDDLE_MEMORY_KB {
        "256MB"@
    } else {
        "128MB"@
    }
}

/// The maintenance memory of a restore on a machine with that much memory.
pub open spec fn maintenance_work_mem_text(total_kb: u64) -> Seq<char> {
    if total_kb >= LARGE_MEMORY_KB {
        "1GB"@
    } else if total_kb >= MIDDLE_MEMORY_KB {
        "512MB"@
    } else {
        "256MB"@
    }
}

impl PostgresQueriesRead {
    /// The statement that lists the columns of a table with their types.
    pub fn list_columns_query(&self, table_name: &str) -> (out: String)
        ensures
            out@ == list_columns_query_text(table_name@),
    {
        let mut out = String::from_str("SELECT column_name, data_type FROM information_schema.columns WHERE table_name = '");
        out.append(table_name);
        out.append("';");
        out
    }

    /// The statement that counts the rows of a table.
    pub fn table_row_count_query(&self, table_name: &str) -> (out: String)
        ensures
            out@ == table_row_count_query_text(table_name@),
    {
        let mut out = String::from_str("SELECT COUNT(*) FROM ");
        out.append(table_name);
        out.append(" ");
        out
    }

    /// The statement that lists tables: the user's own ones, unless the
    /// caller asks for all of the public schema.
    pub fn list_tables_query(&self, only_user_tables: Option<bool>) -> (out: String)
        ensures
            out@ == list_tables_query_text(only_user_tables),
    {
        let only_user_tables = match only_user_tables {
            Some(only) => only,
            None => true,
        };
        if only_user_tables {
            String::from_str(
                "SELECT table_name FROM information_schema.tables WHERE table_schema = 'public' AND table_type = 'BASE TABLE' AND table_name NOT IN ('geometry_columns', 'spatial_ref_sys', 'raster_columns', 'raster_overviews')",
            )
        } else {
            String::from_str(
                "SELECT table_name FROM information_schema.tables WHERE table_schema = 'public';",
            )
        }
    }

    /// The statement that asks whether the spatial extension is installed.
    pub fn postgis_support_query(&self) -> (out: String)
        ensures
            out@ == postgis_support_query_text(),
    {
        String::from_str("SELECT EXISTS (SELECT 1 FROM pg_extension WHERE extname = 'postgis')")
    }
}

impl PostgresQueriesWrite {
    /// The statement that drops a table if there is one.
    pub fn drop_query(&self, table_name: &str) -> (out: String)
        ensures
            out@ == drop_query_text(table_name@),
    {
        let mut out = String::from_str("DROP TABLE IF EXISTS ");
        out.append(table_name);
        out.append(" CASCADE");
        out
    }

    /// The statement that drops one of the tables that were listed.
    pub fn drop_listed_query(&self, table_name: &str) -> (out: String)
        ensures
            out@ == drop_listed_query_text(table_name@),
    {
        let mut out = String::from_str("DROP TABLE ");
        out.append(table_name);
        out.append(" CASCADE");
        out
    }

    /// The statement that takes over the collation version of the system for a database.
    pub fn fix_collation_query(&self, database: &str) -> (out: String)
        ensures
            out@ == fix_collation_query_text(database@),
    {
        let mut out = String::from_str("ALTER DATABASE ");
        out.append(database);
        out.append(" REFRESH COLLATION VERSION");
        out
    }

    /// The file that a dump of a database, taken at a time, is written to.
    pub fn backup_file(&self, output_dir: &str, db_name: &str, timestamp: &str) -> (out: String)
        ensures
            out@ == backup_file_text(output_dir@, db_name@, timestamp@),
    {
        let mut out = String::from_str(output_dir);
        out.append("/backup_");
        out.append(db_name);
        out.append("_");
        out.append(timestamp);
        out.append(".dump");
        out
    }

    /// The command that dumps the database into a file, with that many jobs,
    /// leaving out the tables of the spatial extension.
    pub fn backup_command(&self, config: &Config, jobs: i32, file: &str) -> (out: String)
        ensures
            out@ == backup_command_text(*config, jobs as int, file@),
    {
        let mut out = String::from_str("pg_dump --host=");
        out.append(config.host.as_str());
        out.append(" --port=");
        push_decimal(&mut out, config.port as u64);
        out.append(" --username=");
        out.append(config.user.as_str());
        out.append(" --dbname=");
        out.append(config.db_name.as_str());
        out.append(" --jobs=");
        push_signed_decimal(&mut out, jobs as i64);
        out.append(" --format=custom --no-privileges --no-owner --exclude-table='geometry_columns' --exclude-table='spatial_ref_sys' --exclude-table='raster_columns' --exclude-table='raster_overviews' --file=");
        out.append(file);
        out
    }

    /// The command that restores the data of a dump, with triggers off.
    pub fn restore_data_command(&self, config: &Config, jobs: i32, file: &str) -> (out: String)
        ensures
            out@ == restore_data_command_text(*config, jobs as int, file@),
    {
        let mut out = String::from_str("pg_restore --host=");
        out.append(config.host.as_str());
        out.append(" --port=");
        push_decimal(&mut out, config.port as u64);
        out.append(" --username=");
        out.append(config.user.as_str());
        out.append(" --dbname=");
        out.append(config.db_name.as_str());
        out.append(" --jobs=");
        push_signed_decimal(&mut out, jobs as i64);
        out.append(" --data-only --disable-triggers --no-acl --no-comments ");
        out.append(file);
        out
    }

    /// The command that restores the schema of a dump on this machine.
    pub fn restore_schema_local_command(&self, config: &Config, jobs: i32, file: &str) -> (out: String)
        ensures
            out@ == restore_schema_local_command_text(*config, jobs as int, file@),
    {
        let mut out = String::from_str("pg_restore --host=");
        out.append(config.host.as_str());
        out.append(" --port=");
        push_decimal(&mut out, config.port as u64);
        out.append(" --username=");
        out.append(config.user.as_str());
        out.append(" --dbname=");
        out.append(config.db_name.as_str());
        out.append(" --jobs=");
        push_signed_decimal(&mut out, jobs as i64);
        out.append(" --schema-only --clean --if-exists --no-acl --no-comments ");
        out.append(file);
        out
    }

    /// The command that restores the schema of a dump inside a container.
    pub fn restore_schema_container_command(&self, container: &str, config: &Config, jobs: i32, file: &str) -> (out: String)
        ensures
            out@ == restore_schema_container_command_text(container@, *config, jobs as int, file@),
    {
        let mut out = String::from_str("docker exec -i ");
        out.append(container);
        out.append(" pg_restore --host=");
        out.append(config.host.as_str());
        out.append(" --port=");
        push_decimal(&mut out, config.port as u64);
        out.append(" --username=");
        out.append(config.user.as_str());
        out.append(" --dbname=");
        out.append(config.db_name.as_str());
        out.append(" --jobs=");
        push_signed_decimal(&mut out, jobs as i64);
        out.append(" --schema-only --clean --if-exists --no-acl --no-comments ");
        out.append(file);
        out
    }

    /// The statements that create the table of a feature collection.
    pub fn create_geo_table_statements(&self, table_name: &str) -> (statements: Vec<String>)
        ensures
            texts(statements@) == schema_statement_texts(table_name@),
    {
        schema_statements(table_name)
    }

    /// The batch that loads the files at the paths: one job for each path,
    /// in their order, into the table that the caller names or into the one
    /// named after each file, with as many jobs side by side as the pool
    /// has connections.
    pub fn insert_geojson(&self, paths: Vec<String>, table_name: Option<&str>) -> (batch: Batch)
        ensures
            batch@ == BatchModel::initial(batch@.jobs, DEFAULT_POOL_SIZE as nat),
            batch@.jobs.len() == paths.len(),
            forall|i: int| 0 <= i < paths.len() ==> (#[trigger] batch@.jobs[i]).path == paths[i],
            table_name matches Some(table) ==> forall|i: int|
                0 <= i < paths.len() ==> (#[trigger] batch@.jobs[i]).target.table@ == table@,
    {
        Batch::new(plan_jobs(paths, table_name), DEFAULT_POOL_SIZE)
    }

    /// The number of jobs of a dump or a restore: the caller's, or the
    /// default.
    pub fn job_count(&self, no_of_jobs: Option<i32>) -> (jobs: i32)
        ensures
            jobs == match no_of_jobs {
                Some(n) => n,
                None => DEFAULT_JOBS,
            },
    {
        match no_of_jobs {
            Some(n) => n,
            None => DEFAULT_JOBS,
        }
    }

    /// The memory to reckon with: what was detected, or the assumed amount.
    pub fn memory_kb(&self, detected: Option<u64>) -> (total_kb: u64)
        ensures
            total_kb == match detected {
                Some(kb) => kb,
                None => ASSUMED_MEMORY_KB,
            },
    {
        match detected {
            Some(kb) => kb,
            None => ASSUMED_MEMORY_KB,
        }
    }

    /// The working memory of a restore on a machine with that much memory.
    pub fn work_mem(&self, total_kb: u64) -> (out: String)
        ensures
            out@ == work_mem_text(total_kb),
    {
        if total_kb >= LARGE_MEMORY_KB {
            String::from_str("512MB")
        } else if total_kb >= MIDDLE_MEMORY_KB {
            String::from_str("256MB")
        } else {
            String::from_str("128MB")
        }
    }

    /// The maintenance memory of a restore on a machine with that much
    /// memory.
    pub fn maintenance_work_mem(&self, total_kb: u64) -> (out: String)
        ensures
            out@ == maintenance_work_mem_text(total_kb),
    {
        if total_kb >= LARGE_MEMORY_KB {
            String::from_str("1GB")
        } else if total_kb >= MIDDLE_MEMORY_KB {
            String::from_str("512MB")
        } else {
            String::from_str("256MB")
        }
    }

    /// The command that restores the schema of a dump: inside the
    /// container where one is named, else on this machine.
    pub fn restore_schema_command(
        &self,
        container: Option<&str>,
        config: &Config,
        jobs: i32,
        file: &str,
    ) -> (out: String)
        ensures
            out@ == restore_schema_command_text(
                match container {
                    Some(name) => Some(name@),
                    None => None,
                },
                *config,
                jobs as int,
                file@,
            ),
    {
        match container {
            Some(name) => self.restore_schema_container_command(name, config, jobs, file),
            None => self.restore_schema_local_command(config, jobs, file),
        }
    }
}

} // verus!
