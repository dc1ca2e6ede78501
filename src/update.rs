//! The repository update protocol: whether to re-synchronise, and which
//! installed packages the synchronised repositories upgrade.
use vstd::prelude::*;
use crate::application::Application;
use crate::bin_database::{first_unconfigured, provider, repo_index, repo_named, BinDatabase, BinRepo};
use crate::config::{Configuration, RepoMeta};
use crate::error::PkgError;
use crate::text::{decimal, decimal_string, lemma_parse_decimal, parse_decimal, parse_u64, views};

verus! {

/// What an update does with one repository.
#[derive(Clone, Copy, Debug, PartialEq, Eq, Structural)]
pub enum UpdateAction {
    /// Download the repository database again.
    Sync,
    /// Nothing: the local copy is as new as the remote one.
    UpToDate,
}

/// Whether `upstream` is a strictly greater semantic version than
/// `installed`; `None` where either does not parse.
pub uninterp spec fn semver_newer(upstream: Seq<char>, installed: Seq<char>) -> Option<bool>;

/// Relies on semver's `Version::parse` and the ordering of `Version`.
#[verifier::external_body]
fn version_newer(upstream: &str, installed: &str) -> (r: Option<bool>)
    ensures
        r == semver_newer(upstream@, installed@),
{
    match semver::Version::parse(upstream) {
        Ok(u) => match semver::Version::parse(installed) {
            Ok(i) => Some(u > i),
            Err(_) => None,
        },
        Err(_) => None,
    }
}

/// Re-synchronise exactly when the remote timestamp is newer.
pub open spec fn update_decision(local: u64, remote: u64) -> UpdateAction {
    if remote > local { UpdateAction::Sync } else { UpdateAction::UpToDate }
}

/// The local timestamp after acting on the decision: a synchronised
/// repository carries the remote timestamp.
pub open spec fn date_after_update(local: u64, remote: u64) -> u64 {
    match update_decision(local, remote) {
        UpdateAction::Sync => remote,
        UpdateAction::UpToDate => local,
    }
}

/// The decision for a repository with timestamp `local`, given the body of
/// its update address: a decimal UNIX timestamp.
pub fn update_action(local: u64, body: &str) -> (r: Result<UpdateAction, PkgError>)
    ensures
        parse_u64(body@) matches Some(n) ==> (r matches Ok(a) && a == update_decision(local, n)),
        parse_u64(body@) is None ==> (r matches Err(PkgError::Transfer(m)) && m@ == body@),
{
    match parse_decimal(body) {
        Some(remote) => {
            if remote > local {
                Ok(UpdateAction::Sync)
            } else {
                Ok(UpdateAction::UpToDate)
            }
        },
        None => Err(PkgError::Transfer(String::from_str(body))),
    }
}

/// Updating twice with no upstream change: the server reports the same
/// body, `remote` in decimal, both times; it reads back as `remote`, and the
/// second run finds the repository up to date, so it downloads and writes
/// nothing.
pub proof fn lemma_update_idempotent(local: u64, remote: u64)
    ensures
        parse_u64(decimal(remote as nat)) == Some(remote),
        update_decision(date_after_update(local, remote), remote) == UpdateAction::UpToDate,
{
    lemma_parse_decimal(remote);
}

impl BinRepo {
    /// The body a server answers on the repository's update address: its
    /// timestamp in decimal.
    pub fn version_body(&self) -> (r: String)
        ensures
            r@ == decimal(self.date as nat),
    {
        decimal_string(self.date)
    }
}

/// An installed package is upgraded when a configured repository holds a
/// strictly greater version of it.
pub open spec fn upgrade_wanted(repos: Seq<RepoMeta>, db: Seq<(String, BinRepo)>, app: Application) -> bool {
    match provider(repos, db, app.metadata.name@) {
        Some((_, up)) => semver_newer(up.metadata.version@, app.metadata.version@) == Some(true),
        None => false,
    }
}

/// The names of the installed packages to upgrade, in order.
pub open spec fn upgrades(repos: Seq<RepoMeta>, db: Seq<(String, BinRepo)>, installed: Seq<Application>) -> Seq<Seq<char>>
    decreases installed.len(),
{
    if installed.len() == 0 {
        Seq::empty()
    } else {
        let rest = upgrades(repos, db, installed.drop_last());
        if upgrade_wanted(repos, db, installed.last()) {
            rest.push(installed.last().metadata.name@)
        } else {
            rest
        }
    }
}

impl BinDatabase {
    /// The timestamp of the repository named `name`.
    pub fn repo_date(&self, name: &str) -> (r: Option<u64>)
        ensures
            r is None <==> repo_named(self.repos@, name@) is None,
            r matches Some(d) ==> (repo_named(self.repos@, name@) matches Some(rp) && rp.date == d),
    {
        match repo_index(&self.repos, name) {
            Some(k) => Some(self.repos[k].1.date),
            None => None,
        }
    }

    /// The installed packages that the configured repositories hold in a
    /// strictly greater version.
    pub fn upgrades(&self, config: &Configuration, installed: &Vec<Application>) -> (r: Result<Vec<String>, PkgError>)
        ensures
            first_unconfigured(self.repos@, config.repos@) matches Some(n) ==> (r matches Err(PkgError::Config(m)) && m@ == n),
            first_unconfigured(self.repos@, config.repos@) is None ==> (r matches Ok(v)
                && views(v@) == upgrades(config.repos@, self.repos@, installed@)),
    {
        if let Some(n) = self.unconfigured_repo(config) {
            return Err(PkgError::Config(n));
        }
        let mut r: Vec<String> = Vec::new();
        let mut i: usize = 0;
        while i < installed.len()
            invariant
                i <= installed@.len(),
                views(r@) == upgrades(config.repos@, self.repos@, installed@.subrange(0, i as int)),
            decreases installed@.len() - i,
        {
            let app = &installed[i];
            let ghost p = installed@.subrange(0, i as int + 1);
            assert(p.drop_last() =~= installed@.subrange(0, i as int));
            assert(p.last() == *app);
            if let Some((ci, k, j)) = self.provider_position(config, app.metadata.name.as_str()) {
                let up = &self.repos[k].1.applications[j];
                if version_newer(up.metadata.version.as_str(), app.metadata.version.as_str()) == Some(true) {
                    r.push(app.metadata.name.clone());
                    assert(views(r@) =~= upgrades(config.repos@, self.repos@, installed@.subrange(0, i as int)).push(app.metadata.name@));
                }
            }
            i = i + 1;
        }
        assert(installed@.subrange(0, installed@.len() as int) =~= installed@);
        Ok(r)
    }
}

} // verus!
