//! The ordered list of named schema migrations.
use vstd::prelude::*;

verus! {

/// One named migration: the script that applies it and, optionally, the
/// script that reverts it.
pub struct Migration {
    pub name: String,
    pub up_sql: String,
    pub down_sql: Option<String>,
}

/// Migrations in the order they are applied.
pub struct Migrator {
    pub migrations: Vec<Migration>,
}

impl Migrator {
    /// A migrator with no migrations.
    pub fn new() -> (r: Self)
        ensures
            r.migrations@.len() == 0,
    {
        Migrator { migrations: Vec::new() }
    }

    /// Appends the migration `name` with the script `up_sql` and no revert script.
    pub fn add_up(self, name: &str, up_sql: &str) -> (r: Self)
        ensures
            r.migrations@.len() == self.migrations@.len() + 1,
            r.migrations@.subrange(0, self.migrations@.len() as int) == self.migrations@,
            r.migrations@.last().name@ == name@,
            r.migrations@.last().up_sql@ == up_sql@,
            r.migrations@.last().down_sql is None,
    {
        let mut s = self;
        let ghost before = s.migrations@;
        s.migrations.push(
            Migration { name: String::from_str(name), up_sql: String::from_str(up_sql), down_sql: None },
        );
        assert(s.migrations@.subrange(0, before.len() as int) =~= before);
        s
    }

    /// Appends the migration `name` with the script `up_sql` and the revert
    /// script `down_sql`.
    pub fn add_up_down(self, name: &str, up_sql: &str, down_sql: &str) -> (r: Self)
        ensures
            r.migrations@.len() == self.migrations@.len() + 1,
            r.migrations@.subrange(0, self.migrations@.len() as int) == self.migrations@,
            r.migrations@.last().name@ == name@,
            r.migrations@.last().up_sql@ == up_sql@,
            r.migrations@.last().down_sql matches Some(d) && d@ == down_sql@,
    {
        let mut s = self;
        let ghost before = s.migrations@;
        s.migrations.push(
            Migration {
                name: String::from_str(name),
                up_sql: String::from_str(up_sql),
                down_sql: Some(String::from_str(down_sql)),
            },
        );
        assert(s.migrations@.subrange(0, before.len() as int) =~= before);
        s
    }
}

} // verus!
