//! The operations a front end calls: on the registry, and to start a script.
use vstd::prelude::*;
use vstd::string::*;

use crate::config::{has_key, key_index, put, value_of, without, Config};
use crate::defaults::{fallback_shell, FALLBACK_COMMAND_DISPLAY_WIDTH, FALLBACK_SHELL};
use crate::error::PierError;
use crate::listing::{
    alias_listing, copies_of, join_tags, render_rows, drawn_cells, row_listing, row_of,
    table_text, title_cells, RowView, ScriptRow,
};
use crate::script::{
    executable_start, inline_start, opt_texts, starts_with_directive, texts, Invocation, Script,
    ScriptView,
};

verus! {

/// A registry together with the file it belongs to.
pub struct Pier {
    config: Config,
    path: String,
    verbose: bool,
}

/// The width a listing cuts commands to: the one asked for, else the
/// registry's default, else the fallback.
pub open spec fn effective_width(asked: Option<usize>, default: Option<usize>) -> nat {
    match asked {
        Some(w) => w as nat,
        None => match default {
            Some(w) => w as nat,
            None => FALLBACK_COMMAND_DISPLAY_WIDTH as nat,
        },
    }
}

/// The interpreter that runs a script without a directive: the registry's
/// default, else the given shell (or `/bin/sh`) with `-c`.
pub open spec fn interpreter_for(default: Option<Vec<String>>, shell: Option<String>) -> Seq<
    Seq<char>,
> {
    match default {
        Some(v) => texts(v@),
        None => seq![
            match shell {
                Some(s) => s@,
                None => FALLBACK_SHELL@,
            },
            "-c"@,
        ],
    }
}

/// `r` is the outcome of looking `alias` up in `s`: no scripts at all, no
/// script under the alias, or the script under it.
pub open spec fn lookup_outcome<T>(
    s: Seq<(Seq<char>, ScriptView)>,
    alias: Seq<char>,
    r: Result<T, PierError>,
) -> bool {
    if s.len() == 0 {
        r matches Err(PierError::NoScriptsExists)
    } else if !has_key(s, alias) {
        r matches Err(PierError::AliasNotFound { alias: a }) && a@ == alias
    } else {
        r is Ok
    }
}

impl Pier {
    /// The registry this value holds.
    pub closed spec fn spec_config(&self) -> Config {
        self.config
    }

    /// The path of the file the registry belongs to.
    pub closed spec fn spec_path(&self) -> Seq<char> {
        self.path@
    }

    /// Whether running a script reports its start and end.
    pub closed spec fn spec_verbose(&self) -> bool {
        self.verbose
    }

    /// The entries of the registry this value holds.
    pub open spec fn scripts(&self) -> Seq<(Seq<char>, ScriptView)> {
        self.spec_config().scripts@
    }

    /// The registry holds each alias at most once.
    pub open spec fn wf(&self) -> bool {
        self.spec_config().wf()
    }

    /// An empty registry, with no file and no verbose output.
    pub fn new() -> (r: Pier)
        ensures
            r.wf(),
            r.scripts().len() == 0,
            r.spec_config().default.interpreter is None,
            r.spec_config().default.command_width is None,
            r.spec_path().len() == 0,
            !r.spec_verbose(),
    {
        Pier { config: Config::new(), path: String::new(), verbose: false }
    }

    /// A registry that was read from the file at `path`.
    pub fn from_config(config: Config, path: String, verbose: bool) -> (r: Pier)
        requires
            config.wf(),
        ensures
            r.wf(),
            r.spec_config() == config,
            r.spec_path() == path@,
            r.spec_verbose() == verbose,
    {
        Pier { config, path, verbose }
    }

    /// The registry.
    pub fn config(&self) -> (r: &Config)
        ensures
            *r == self.spec_config(),
    {
        &self.config
    }

    /// The path of the file the registry belongs to.
    pub fn path(&self) -> (r: &str)
        ensures
            r@ == self.spec_path(),
    {
        self.path.as_str()
    }

    /// Whether running a script reports its start and end.
    pub fn verbose(&self) -> (r: bool)
        ensures
            r == self.spec_verbose(),
    {
        self.verbose
    }

    /// The script under `alias`.
    pub fn fetch_script(&self, alias: &str) -> (r: Result<&Script, PierError>)
        requires
            self.wf(),
        ensures
            lookup_outcome(self.scripts(), alias@, r),
            r matches Ok(s) ==> s@ == value_of(self.scripts(), alias@),
    {
        if self.config.scripts.is_empty() {
            return Err(PierError::NoScriptsExists);
        }
        match self.config.scripts.get(alias) {
            Some(s) => Ok(s),
            None => Err(PierError::AliasNotFound { alias: String::from_str(alias) }),
        }
    }

    /// Replaces the command of the script under `alias`, and nothing else.
    pub fn edit_script(&mut self, alias: &str, command: String) -> (r: Result<(), PierError>)
        requires
            old(self).wf(),
        ensures
            final(self).wf(),
            lookup_outcome(old(self).scripts(), alias@, r),
            r is Ok ==> final(self).scripts() == old(self).scripts().update(
                key_index(old(self).scripts(), alias@),
                (alias@, ScriptView { command: command@, ..value_of(old(self).scripts(), alias@) }),
            ),
            r is Err ==> final(self).scripts() == old(self).scripts(),
            final(self).spec_config().default == old(self).spec_config().default,
            final(self).spec_path() == old(self).spec_path(),
            final(self).spec_verbose() == old(self).spec_verbose(),
    {
        if self.config.scripts.is_empty() {
            return Err(PierError::NoScriptsExists);
        }
        match self.config.scripts.get_mut(alias) {
            Some(s) => {
                s.command = command;
                Ok(())
            },
            None => Err(PierError::AliasNotFound { alias: String::from_str(alias) }),
        }
    }

    /// Removes the script under `alias`.
    pub fn remove_script(&mut self, alias: &str) -> (r: Result<(), PierError>)
        requires
            old(self).wf(),
        ensures
            final(self).wf(),
            lookup_outcome(old(self).scripts(), alias@, r),
            r is Ok ==> final(self).scripts() == without(old(self).scripts(), alias@),
            r is Err ==> final(self).scripts() == old(self).scripts(),
            final(self).spec_config().default == old(self).spec_config().default,
            final(self).spec_path() == old(self).spec_path(),
            final(self).spec_verbose() == old(self).spec_verbose(),
    {
        if self.config.scripts.is_empty() {
            return Err(PierError::NoScriptsExists);
        }
        match self.config.scripts.remove(alias) {
            Some(_) => Ok(()),
            None => Err(PierError::AliasNotFound { alias: String::from_str(alias) }),
        }
    }

    /// Adds `script` under its own alias; an existing script there is
    /// replaced only when `force` is set.
    pub fn add_script(&mut self, script: Script, force: bool) -> (r: Result<(), PierError>)
        requires
            old(self).wf(),
        ensures
            final(self).wf(),
            (!force && has_key(old(self).scripts(), script.alias@)) <==> r is Err,
            r matches Err(e) ==> (e matches PierError::AliasAlreadyExists { alias: a } && a@
                == script.alias@),
            r is Ok ==> final(self).scripts() == put(old(self).scripts(), script.alias@, script@),
            r is Err ==> final(self).scripts() == old(self).scripts(),
            final(self).spec_config().default == old(self).spec_config().default,
            final(self).spec_path() == old(self).spec_path(),
            final(self).spec_verbose() == old(self).spec_verbose(),
    {
        if !force && self.config.scripts.contains_key(script.alias.as_str()) {
            return Err(PierError::AliasAlreadyExists { alias: script.alias });
        }
        let key = script.alias.clone();
        self.config.scripts.insert(key, script);
        Ok(())
    }

    /// Puts a copy of the script under `from_alias` under `new_alias` too. The
    /// copy keeps its alias field: only the key it stands under is new.
    pub fn copy_script(&mut self, from_alias: &str, new_alias: &str) -> (r: Result<(), PierError>)
        requires
            old(self).wf(),
        ensures
            final(self).wf(),
            has_key(old(self).scripts(), new_alias@) ==> (r matches Err(
                PierError::AliasAlreadyExists { alias: a },
            ) && a@ == new_alias@),
            !has_key(old(self).scripts(), new_alias@) && !has_key(old(self).scripts(), from_alias@)
                ==> (r matches Err(PierError::AliasNotFound { alias: a }) && a@ == from_alias@),
            !has_key(old(self).scripts(), new_alias@) && has_key(old(self).scripts(), from_alias@)
                ==> r is Ok,
            r is Ok ==> final(self).scripts() == put(
                old(self).scripts(),
                new_alias@,
                value_of(old(self).scripts(), from_alias@),
            ),
            r is Err ==> final(self).scripts() == old(self).scripts(),
            final(self).spec_config().default == old(self).spec_config().default,
            final(self).spec_path() == old(self).spec_path(),
            final(self).spec_verbose() == old(self).spec_verbose(),
    {
        if self.config.scripts.contains_key(new_alias) {
            return Err(PierError::AliasAlreadyExists { alias: String::from_str(new_alias) });
        }
        let script = match self.config.scripts.get(from_alias) {
            Some(s) => s.duplicate(),
            None => {
                return Err(PierError::AliasNotFound { alias: String::from_str(from_alias) });
            },
        };
        self.config.scripts.insert(String::from_str(new_alias), script);
        Ok(())
    }

    /// Moves the script under `from_alias` to `new_alias`; an existing script
    /// there is replaced only when `force` is set. The script keeps its alias
    /// field: only the key it stands under is new.
    pub fn move_script(&mut self, from_alias: &str, new_alias: &str, force: bool) -> (r: Result<
        (),
        PierError,
    >)
        requires
            old(self).wf(),
        ensures
            final(self).wf(),
            !force && has_key(old(self).scripts(), new_alias@) ==> (r matches Err(
                PierError::AliasAlreadyExists { alias: a },
            ) && a@ == new_alias@),
            !(!force && has_key(old(self).scripts(), new_alias@)) && !has_key(
                old(self).scripts(),
                from_alias@,
            ) ==> (r matches Err(PierError::AliasNotFound { alias: a }) && a@ == from_alias@),
            !(!force && has_key(old(self).scripts(), new_alias@)) && has_key(
                old(self).scripts(),
                from_alias@,
            ) ==> r is Ok,
            r is Ok ==> final(self).scripts() == put(
                without(old(self).scripts(), from_alias@),
                new_alias@,
                value_of(old(self).scripts(), from_alias@),
            ),
            r is Err ==> final(self).scripts() == old(self).scripts(),
            final(self).spec_config().default == old(self).spec_config().default,
            final(self).spec_path() == old(self).spec_path(),
            final(self).spec_verbose() == old(self).spec_verbose(),
    {
        if !force && self.config.scripts.contains_key(new_alias) {
            return Err(PierError::AliasAlreadyExists { alias: String::from_str(new_alias) });
        }
        let script = match self.config.scripts.remove(from_alias) {
            Some(s) => s,
            None => {
                return Err(PierError::AliasNotFound { alias: String::from_str(from_alias) });
            },
        };
        self.config.scripts.insert(String::from_str(new_alias), script);
        Ok(())
    }

    /// The aliases to list: every alias without a filter; with one, each
    /// alias once for every requested tag that its script has.
    pub fn list_aliases(&self, tags: Option<Vec<String>>) -> (r: Result<Vec<String>, PierError>)
        requires
            self.wf(),
        ensures
            self.scripts().len() == 0 <==> r is Err,
            r matches Err(e) ==> e is NoScriptsExists,
            r matches Ok(v) ==> texts(v@) == alias_listing(self.scripts(), opt_texts(tags)),
    {
        if self.config.scripts.is_empty() {
            return Err(PierError::NoScriptsExists);
        }
        let entries = self.config.scripts.entries();
        let ghost s = self.scripts();
        let ghost filter = opt_texts(tags);
        let mut out: Vec<String> = Vec::new();
        let mut i: usize = 0;
        while i < entries.len()
            invariant
                0 <= i <= entries.len(),
                entries@.map_values(|e: (String, Script)| (e.0@, e.1@)) == s,
                filter == opt_texts(tags),
                texts(out@) == alias_listing(s.take(i as int), filter),
            decreases entries.len() - i,
        {
            let n = copies_of(&tags, &entries[i].1);
            let ghost before = texts(out@);
            let ghost k = s[i as int].0;
            assert(s.take(i + 1).drop_last() =~= s.take(i as int));
            assert(s.take(i + 1).last() == s[i as int]);
            let mut j: usize = 0;
            while j < n
                invariant
                    0 <= j <= n,
                    i < entries.len(),
                    entries@.map_values(|e: (String, Script)| (e.0@, e.1@)) == s,
                    k == s[i as int].0,
                    texts(out@) == before + Seq::new(j as nat, |_x: int| k),
                decreases n - j,
            {
                let ghost prev = out@;
                out.push(entries[i].0.clone());
                assert(texts(out@) =~= texts(prev).push(k));
                assert(before + Seq::new((j + 1) as nat, |_x: int| k) =~= (before + Seq::new(
                    j as nat,
                    |_x: int| k,
                )).push(k));
                j = j + 1;
            }
            i = i + 1;
        }
        assert(s.take(entries.len() as int) =~= s);
        Ok(out)
    }

    /// The rows of a listing, filtered by tags as [`Pier::list_aliases`]
    /// does; commands are shown whole when `cmd_full`, else cut to the
    /// width asked for, the registry's default, or the fallback.
    pub fn script_rows(
        &self,
        tags: Option<Vec<String>>,
        cmd_full: bool,
        cmd_width: Option<usize>,
    ) -> (r: Result<Vec<ScriptRow>, PierError>)
        requires
            self.wf(),
        ensures
            self.scripts().len() == 0 <==> r is Err,
            r matches Err(e) ==> e is NoScriptsExists,
            r matches Ok(v) ==> v@.map_values(|x: ScriptRow| x@) == row_listing(
                self.scripts(),
                opt_texts(tags),
                cmd_full,
                effective_width(cmd_width, self.spec_config().default.command_width),
            ),
    {
        let width = match cmd_width {
            Some(w) => w,
            None => match self.config.default.command_width {
                Some(w) => w,
                None => FALLBACK_COMMAND_DISPLAY_WIDTH,
            },
        };
        if self.config.scripts.is_empty() {
            return Err(PierError::NoScriptsExists);
        }
        let entries = self.config.scripts.entries();
        let ghost s = self.scripts();
        let ghost filter = opt_texts(tags);
        let mut out: Vec<ScriptRow> = Vec::new();
        let mut i: usize = 0;
        while i < entries.len()
            invariant
                0 <= i <= entries.len(),
                entries@.map_values(|e: (String, Script)| (e.0@, e.1@)) == s,
                filter == opt_texts(tags),
                out@.map_values(|x: ScriptRow| x@) == row_listing(
                    s.take(i as int),
                    filter,
                    cmd_full,
                    width as nat,
                ),
            decreases entries.len() - i,
        {
            let (alias, script) = (&entries[i].0, &entries[i].1);
            let n = copies_of(&tags, script);
            let ghost before = out@.map_values(|x: ScriptRow| x@);
            let ghost row = row_of(s[i as int].0, s[i as int].1, cmd_full, width as nat);
            assert(s.take(i + 1).drop_last() =~= s.take(i as int));
            assert(s.take(i + 1).last() == s[i as int]);
            let mut j: usize = 0;
            while j < n
                invariant
                    0 <= j <= n,
                    i < entries.len(),
                    entries@.map_values(|e: (String, Script)| (e.0@, e.1@)) == s,
                    alias == &entries@[i as int].0,
                    script == &entries@[i as int].1,
                    row == row_of(s[i as int].0, s[i as int].1, cmd_full, width as nat),
                    out@.map_values(|x: ScriptRow| x@) == before + Seq::new(
                        j as nat,
                        |_x: int| row,
                    ),
                    decreases n - j,
            {
                let tag_text = match &script.tags {
                    Some(t) => join_tags(t),
                    None => String::new(),
                };
                let description = match &script.description {
                    Some(d) => d.clone(),
                    None => String::new(),
                };
                let command = String::from_str(script.display_command(cmd_full, width));
                let r = ScriptRow { alias: alias.clone(), tags: tag_text, description, command };
                assert(r@ == row);
                let ghost prev = out@.map_values(|x: ScriptRow| x@);
                out.push(r);
                assert(out@.map_values(|x: ScriptRow| x@) =~= prev.push(row));
                assert(before + Seq::new((j + 1) as nat, |_x: int| row) =~= (before + Seq::new(
                    j as nat,
                    |_x: int| row,
                )).push(row));
                j = j + 1;
            }
            i = i + 1;
        }
        assert(s.take(entries.len() as int) =~= s);
        Ok(out)
    }

    /// The listing of [`Pier::script_rows`] drawn as a table; an escape
    /// character in a cell is drawn as a visible symbol.
    pub fn list_scripts(
        &self,
        tags: Option<Vec<String>>,
        cmd_full: bool,
        cmd_width: Option<usize>,
    ) -> (r: Result<String, PierError>)
        requires
            self.wf(),
        ensures
            self.scripts().len() == 0 <==> r is Err,
            r matches Err(e) ==> e is NoScriptsExists,
            r matches Ok(t) ==> t@ == table_text(
                title_cells(),
                row_listing(
                    self.scripts(),
                    opt_texts(tags),
                    cmd_full,
                    effective_width(cmd_width, self.spec_config().default.command_width),
                ).map_values(|x: RowView| drawn_cells(x)),
            ),
    {
        let rows = self.script_rows(tags, cmd_full, cmd_width)?;
        let ghost v = rows@;
        let t = render_rows(rows);
        assert(v.map_values(|x: ScriptRow| drawn_cells(x@)) =~= v.map_values(
            |x: ScriptRow| x@,
        ).map_values(|x: RowView| drawn_cells(x)));
        Ok(t)
    }

    /// How to start the script under `alias` with `args`: as an executable
    /// file when its command starts with an interpreter directive, else
    /// inline by the registry's default interpreter, or by `shell` (or
    /// `/bin/sh`) with `-c` when the registry sets none.
    pub fn invocation(&self, alias: &str, args: Vec<String>, shell: Option<String>) -> (r: Result<
        Invocation,
        PierError,
    >)
        requires
            self.wf(),
        ensures
            ({
                let s = self.scripts();
                let interp = interpreter_for(self.spec_config().default.interpreter, shell);
                &&& !has_key(s, alias@) ==> lookup_outcome(s, alias@, r)
                &&& has_key(s, alias@) ==> {
                    let sc = value_of(s, alias@);
                    if starts_with_directive(sc.command) {
                        r matches Ok(inv) && inv@ == executable_start(sc, texts(args@))
                    } else if interp.len() == 0 {
                        r matches Err(e) && e is CommandExec
                    } else {
                        r matches Ok(inv) && inv@ == inline_start(sc, interp, texts(args@))
                    }
                }
            }),
    {
        let script = self.fetch_script(alias)?;
        if script.has_shebang() {
            return Ok(script.executable_invocation(args));
        }
        match &self.config.default.interpreter {
            Some(interpreter) => script.inline_invocation(interpreter, args),
            None => {
                let interpreter = fallback_shell(shell);
                script.inline_invocation(&interpreter, args)
            },
        }
    }
}

} // verus!
