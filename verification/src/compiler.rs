//! The configuration compiler: reduces the selected optional services plus
//! database and path preferences to one normalized [`Configuration`].
use vstd::prelude::*;

use crate::catalog::{spec_profile_name, spec_repo_name};
use crate::selection::{OptionalService, ServiceView};

verus! {

/// An invalid compiled configuration; fatal before any external step runs.
#[derive(Clone, Copy, Debug, PartialEq, Eq, Structural)]
pub enum ConfigurationError {
    /// The destination path for clones was empty.
    EmptyDestination,
}

/// The normalized, persisted record of a user's setup choices.
#[derive(Clone, Debug, PartialEq)]
pub struct Configuration {
    /// Destination root for clones; never empty.
    pub repos_dir: String,
    /// Canonical repository names to clone; no duplicates.
    pub repos: Vec<String>,
    /// Canonical profile names to activate; no duplicates.
    pub profiles: Vec<String>,
    /// Whether the database seeding step runs.
    pub setup_database: bool,
    /// Empty when `setup_database` is false.
    pub su_password: String,
    /// Empty when `setup_database` is false.
    pub password: String,
}

/// Mathematical model of a [`Configuration`].
#[verifier::ext_equal]
pub struct ConfigView {
    pub repos_dir: Seq<char>,
    pub repos: Seq<Seq<char>>,
    pub profiles: Seq<Seq<char>>,
    pub setup_database: bool,
    pub su_password: Seq<char>,
    pub password: Seq<char>,
}

impl View for Configuration {
    type V = ConfigView;

    open spec fn view(&self) -> ConfigView {
        ConfigView {
            repos_dir: self.repos_dir@,
            repos: self.repos.deep_view(),
            profiles: self.profiles.deep_view(),
            setup_database: self.setup_database,
            su_password: self.su_password@,
            password: self.password@,
        }
    }
}

impl ConfigView {
    /// The invariants of a compiled configuration: a destination is given,
    /// the name lists carry no duplicates, and the password fields are
    /// empty exactly while no database setup is requested.
    pub open spec fn wf(self) -> bool {
        &&& self.repos_dir.len() > 0
        &&& self.repos.no_duplicates()
        &&& self.profiles.no_duplicates()
        &&& !self.setup_database ==> self.su_password.len() == 0 && self.password.len() == 0
    }
}

/// The canonical repository names drawn from a selection, in selection
/// order, duplicates included.
pub open spec fn spec_selected_repo_names(svcs: Seq<ServiceView>) -> Seq<Seq<char>>
    decreases svcs.len(),
{
    if svcs.len() == 0 {
        Seq::empty()
    } else {
        spec_selected_repo_names(svcs.drop_last()) + svcs.last().repos.map_values(
            |r| spec_repo_name(r),
        )
    }
}

/// The canonical profile names drawn from a selection, in selection order,
/// duplicates included; entries without a profile contribute nothing.
pub open spec fn spec_selected_profile_names(svcs: Seq<ServiceView>) -> Seq<Seq<char>>
    decreases svcs.len(),
{
    if svcs.len() == 0 {
        Seq::empty()
    } else {
        spec_selected_profile_names(svcs.drop_last()) + match svcs.last().profile {
            Some(p) => seq![spec_profile_name(p)],
            None => Seq::empty(),
        }
    }
}

/// First-occurrence deduplication of a sequence of names.
pub open spec fn spec_dedup(names: Seq<Seq<char>>) -> Seq<Seq<char>>
    decreases names.len(),
{
    if names.len() == 0 {
        Seq::empty()
    } else {
        let rest = spec_dedup(names.drop_last());
        if rest.contains(names.last()) {
            rest
        } else {
            rest.push(names.last())
        }
    }
}

/// What each password field is compiled to: forced empty without database
/// setup, defaulted to the fixed sentinel when left blank.
pub open spec fn spec_password_field(setup_database: bool, given: Seq<char>) -> Seq<char> {
    if !setup_database {
        Seq::empty()
    } else if given.len() == 0 {
        "password"@
    } else {
        given
    }
}

/// Deduplication never invents or loses a name, and leaves no duplicates.
pub proof fn lemma_dedup_properties(names: Seq<Seq<char>>)
    ensures
        spec_dedup(names).to_set() == names.to_set(),
        spec_dedup(names).no_duplicates(),
    decreases names.len(),
{
    if names.len() == 0 {
        assert(spec_dedup(names).to_set() =~= names.to_set());
    } else {
        let prefix = names.drop_last();
        lemma_dedup_properties(prefix);
        assert(names =~= prefix.push(names.last()));
        assert(names.to_set() =~= prefix.to_set().insert(names.last())) by {
            assert forall|x: Seq<char>| names.to_set().contains(x) implies prefix.to_set().insert(
                names.last(),
            ).contains(x) by {
                let i = choose|i: int| 0 <= i < names.len() && names[i] == x;
                if i < prefix.len() {
                    assert(prefix[i] == x);
                }
            }
            assert forall|x: Seq<char>|
                prefix.to_set().insert(names.last()).contains(x) implies names.to_set().contains(
                x,
            ) by {
                if prefix.to_set().contains(x) {
                    let i = choose|i: int| 0 <= i < prefix.len() && prefix[i] == x;
                    assert(names[i] == x);
                } else {
                    assert(names.last() == x);
                }
            }
        }
        if spec_dedup(prefix).contains(names.last()) {
            assert(spec_dedup(names).to_set() =~= names.to_set());
        } else {
            let d = spec_dedup(prefix);
            let dp = d.push(names.last());
            assert(spec_dedup(names) == dp);
            assert(dp.to_set() =~= d.to_set().insert(names.last())) by {
                assert forall|x: Seq<char>| dp.to_set().contains(x) implies d.to_set().insert(
                    names.last(),
                ).contains(x) by {
                    let k = choose|k: int| 0 <= k < dp.len() && dp[k] == x;
                    if k < d.len() {
                        assert(d[k] == x);
                    }
                }
                assert forall|x: Seq<char>|
                    d.to_set().insert(names.last()).contains(x) implies dp.to_set().contains(
                    x,
                ) by {
                    if d.to_set().contains(x) {
                        let k = choose|k: int| 0 <= k < d.len() && d[k] == x;
                        assert(dp[k] == x);
                    } else {
                        assert(dp[d.len() as int] == x);
                    }
                }
            }
            assert(spec_dedup(names).to_set() =~= spec_dedup(prefix).to_set().insert(
                names.last(),
            ));
            assert(spec_dedup(names).to_set() =~= names.to_set());
            assert(spec_dedup(names).no_duplicates()) by {
                let d = spec_dedup(prefix);
                assert(forall|i: int| 0 <= i < d.len() ==> d[i] != names.last());
            }
        }
    }
}

/// A name is drawn from a selection exactly when one of its services
/// carries it: a repository mapping to it, or its profile.
pub proof fn lemma_selected_repo_names_membership(svcs: Seq<ServiceView>, name: Seq<char>)
    ensures
        spec_selected_repo_names(svcs).contains(name) <==> exists|i: int, j: int|
            0 <= i < svcs.len() && 0 <= j < svcs[i].repos.len() && name == spec_repo_name(
                #[trigger] svcs[i].repos[j],
            ),
    decreases svcs.len(),
{
    if svcs.len() > 0 {
        let prefix = svcs.drop_last();
        lemma_selected_repo_names_membership(prefix, name);
        let mapped = svcs.last().repos.map_values(|r| spec_repo_name(r));
        if spec_selected_repo_names(svcs).contains(name) {
            let k = choose|k: int|
                0 <= k < spec_selected_repo_names(svcs).len() && spec_selected_repo_names(svcs)[k]
                    == name;
            if k < spec_selected_repo_names(prefix).len() {
                assert(spec_selected_repo_names(prefix).contains(name));
            } else {
                let j = k - spec_selected_repo_names(prefix).len();
                assert(name == spec_repo_name(svcs[svcs.len() - 1].repos[j]));
            }
        }
        if exists|i: int, j: int|
            0 <= i < svcs.len() && 0 <= j < svcs[i].repos.len() && name == spec_repo_name(
                #[trigger] svcs[i].repos[j],
            ) {
            let (i, j) = choose|i: int, j: int|
                0 <= i < svcs.len() && 0 <= j < svcs[i].repos.len() && name == spec_repo_name(
                    #[trigger] svcs[i].repos[j],
                );
            if i < svcs.len() - 1 {
                assert(prefix[i].repos[j] == svcs[i].repos[j]);
                assert(spec_selected_repo_names(prefix).contains(name));
                let k = choose|k: int|
                    0 <= k < spec_selected_repo_names(prefix).len() && spec_selected_repo_names(
                        prefix,
                    )[k] == name;
                assert(spec_selected_repo_names(svcs)[k] == name);
            } else {
                assert(mapped[j] == name);
                assert(spec_selected_repo_names(svcs)[spec_selected_repo_names(prefix).len() + j]
                    == name);
            }
        }
    }
}

/// Same statement for the profile names.
pub proof fn lemma_selected_profile_names_membership(svcs: Seq<ServiceView>, name: Seq<char>)
    ensures
        spec_selected_profile_names(svcs).contains(name) <==> exists|i: int|
            0 <= i < svcs.len() && (#[trigger] svcs[i].profile) is Some && name
                == spec_profile_name(svcs[i].profile->Some_0),
    decreases svcs.len(),
{
    if svcs.len() > 0 {
        let prefix = svcs.drop_last();
        lemma_selected_profile_names_membership(prefix, name);
        if spec_selected_profile_names(svcs).contains(name) {
            let k = choose|k: int|
                0 <= k < spec_selected_profile_names(svcs).len() && spec_selected_profile_names(
                    svcs,
                )[k] == name;
            if k < spec_selected_profile_names(prefix).len() {
                assert(spec_selected_profile_names(prefix).contains(name));
                let i = choose|i: int|
                    0 <= i < prefix.len() && (#[trigger] prefix[i].profile) is Some && name
                        == spec_profile_name(prefix[i].profile->Some_0);
                assert(svcs[i].profile == prefix[i].profile);
            } else {
                assert(svcs[svcs.len() - 1].profile is Some && name == spec_profile_name(
                    svcs[svcs.len() - 1].profile->Some_0,
                ));
            }
        }
        if exists|i: int|
            0 <= i < svcs.len() && (#[trigger] svcs[i].profile) is Some && name
                == spec_profile_name(svcs[i].profile->Some_0) {
            let i = choose|i: int|
                0 <= i < svcs.len() && (#[trigger] svcs[i].profile) is Some && name
                    == spec_profile_name(svcs[i].profile->Some_0);
            if i < svcs.len() - 1 {
                assert(prefix[i].profile == svcs[i].profile);
                assert(spec_selected_profile_names(prefix).contains(name));
                let k = choose|k: int|
                    0 <= k < spec_selected_profile_names(prefix).len()
                        && spec_selected_profile_names(prefix)[k] == name;
                assert(spec_selected_profile_names(svcs)[k] == name);
            } else {
                assert(spec_selected_profile_names(svcs)[spec_selected_profile_names(
                    prefix,
                ).len() as int] == name);
            }
        }
    }
}

/// Union idempotence: two selections that pick the same set of services
/// compile to set-equal repository and profile name lists, whatever the
/// order of the picks and however often an entry repeats.
pub proof fn lemma_union_idempotent(s1: Seq<ServiceView>, s2: Seq<ServiceView>)
    requires
        s1.to_set() == s2.to_set(),
    ensures
        spec_dedup(spec_selected_repo_names(s1)).to_set() == spec_dedup(
            spec_selected_repo_names(s2),
        ).to_set(),
        spec_dedup(spec_selected_profile_names(s1)).to_set() == spec_dedup(
            spec_selected_profile_names(s2),
        ).to_set(),
{
    lemma_dedup_properties(spec_selected_repo_names(s1));
    lemma_dedup_properties(spec_selected_repo_names(s2));
    lemma_dedup_properties(spec_selected_profile_names(s1));
    lemma_dedup_properties(spec_selected_profile_names(s2));
    assert(spec_selected_repo_names(s1).to_set() =~= spec_selected_repo_names(s2).to_set()) by {
        assert forall|name: Seq<char>|
            spec_selected_repo_names(s1).contains(name)
                <==> spec_selected_repo_names(s2).contains(name) by {
            lemma_selected_repo_names_membership(s1, name);
            lemma_selected_repo_names_membership(s2, name);
            assert forall|i: int, j: int|
                0 <= i < s1.len() && 0 <= j < s1[i].repos.len() && name == spec_repo_name(
                    #[trigger] s1[i].repos[j],
                ) implies exists|i2: int, j2: int|
                0 <= i2 < s2.len() && 0 <= j2 < s2[i2].repos.len() && name == spec_repo_name(
                    #[trigger] s2[i2].repos[j2],
                ) by {
                assert(s1.to_set().contains(s1[i]));
                assert(s2.to_set().contains(s1[i]));
                let i2 = choose|i2: int| 0 <= i2 < s2.len() && s2[i2] == s1[i];
                assert(0 <= i2 < s2.len() && 0 <= j < s2[i2].repos.len() && name == spec_repo_name(
                    s2[i2].repos[j],
                ));
            }
            assert forall|i: int, j: int|
                0 <= i < s2.len() && 0 <= j < s2[i].repos.len() && name == spec_repo_name(
                    #[trigger] s2[i].repos[j],
                ) implies exists|i2: int, j2: int|
                0 <= i2 < s1.len() && 0 <= j2 < s1[i2].repos.len() && name == spec_repo_name(
                    #[trigger] s1[i2].repos[j2],
                ) by {
                assert(s2.to_set().contains(s2[i]));
                assert(s1.to_set().contains(s2[i]));
                let i2 = choose|i2: int| 0 <= i2 < s1.len() && s1[i2] == s2[i];
                assert(0 <= i2 < s1.len() && 0 <= j < s1[i2].repos.len() && name == spec_repo_name(
                    s1[i2].repos[j],
                ));
            }
        }
    }
    assert(spec_selected_profile_names(s1).to_set() =~= spec_selected_profile_names(
        s2,
    ).to_set()) by {
        assert forall|name: Seq<char>|
            spec_selected_profile_names(s1).contains(name)
                <==> spec_selected_profile_names(s2).contains(name) by {
            lemma_selected_profile_names_membership(s1, name);
            lemma_selected_profile_names_membership(s2, name);
            assert forall|i: int|
                0 <= i < s1.len() && (#[trigger] s1[i].profile) is Some && name
                    == spec_profile_name(s1[i].profile->Some_0) implies exists|i2: int|
                0 <= i2 < s2.len() && (#[trigger] s2[i2].profile) is Some && name
                    == spec_profile_name(s2[i2].profile->Some_0) by {
                assert(s1.to_set().contains(s1[i]));
                assert(s2.to_set().contains(s1[i]));
                let i2 = choose|i2: int| 0 <= i2 < s2.len() && s2[i2] == s1[i];
                assert(0 <= i2 < s2.len() && s2[i2].profile is Some && name == spec_profile_name(
                    s2[i2].profile->Some_0,
                ));
            }
            assert forall|i: int|
                0 <= i < s2.len() && (#[trigger] s2[i].profile) is Some && name
                    == spec_profile_name(s2[i].profile->Some_0) implies exists|i2: int|
                0 <= i2 < s1.len() && (#[trigger] s1[i2].profile) is Some && name
                    == spec_profile_name(s1[i2].profile->Some_0) by {
                assert(s2.to_set().contains(s2[i]));
                assert(s1.to_set().contains(s2[i]));
                let i2 = choose|i2: int| 0 <= i2 < s1.len() && s1[i2] == s2[i];
                assert(0 <= i2 < s1.len() && s1[i2].profile is Some && name == spec_profile_name(
                    s1[i2].profile->Some_0,
                ));
            }
        }
    }
}

/// The views of a selection, in order.
pub open spec fn spec_views_of(svcs: Seq<OptionalService>) -> Seq<ServiceView> {
    svcs.map_values(|s: OptionalService| s@)
}

/// True when `names` holds a string whose characters equal `name`.
fn names_contain(names: &Vec<String>, name: &String) -> (r: bool)
    ensures
        r == names.deep_view().contains(name@),
{
    let mut i: usize = 0;
    while i < names.len()
        invariant
            0 <= i <= names.len(),
            forall|k: int| 0 <= k < i ==> names.deep_view()[k] != name@,
        decreases names.len() - i,
    {
        if names[i] == *name {
            assert(names.deep_view()[i as int] == name@);
            return true;
        }
        assert(names.deep_view()[i as int] != name@);
        i += 1;
    }
    false
}

/// Append `name` to `out` unless it is already present, keeping `out` equal
/// to the deduplication of the names pushed so far.
fn push_dedup(out: &mut Vec<String>, name: String, Ghost(pushed): Ghost<Seq<Seq<char>>>)
    requires
        old(out).deep_view() == spec_dedup(pushed),
    ensures
        final(out).deep_view() == spec_dedup(pushed.push(name@)),
{
    proof {
        assert(pushed.push(name@).drop_last() =~= pushed);
    }
    if !names_contain(out, &name) {
        let ghost prev = out.deep_view();
        out.push(name);
        proof {
            assert(out.deep_view() =~= prev.push(name@));
        }
    }
}

/// Compile a selection plus preferences into one normalized configuration.
///
/// The repository and profile name lists are the first-occurrence
/// deduplication of the canonical names the selection draws, so the result
/// is determined by the selection alone. An empty destination is rejected;
/// without database setup both password fields are forced empty, and with
/// it a blank password defaults to the fixed sentinel.
pub fn compile(
    selected: &Vec<OptionalService>,
    repos_dir: String,
    setup_database: bool,
    su_password: String,
    password: String,
) -> (r: Result<Configuration, ConfigurationError>)
    ensures
        r is Err <==> repos_dir@.len() == 0,
        r is Err ==> r->Err_0 == ConfigurationError::EmptyDestination,
        r is Ok ==> {
            let c = (r->Ok_0)@;
            &&& c.repos_dir == repos_dir@
            &&& c.setup_database == setup_database
            &&& c.repos == spec_dedup(spec_selected_repo_names(spec_views_of(selected@)))
            &&& c.profiles == spec_dedup(spec_selected_profile_names(spec_views_of(selected@)))
            &&& c.su_password == spec_password_field(setup_database, su_password@)
            &&& c.password == spec_password_field(setup_database, password@)
            &&& !setup_database ==> c.su_password.len() == 0 && c.password.len() == 0
            &&& c.wf()
        },
{
    if repos_dir.as_str().is_empty() {
        return Err(ConfigurationError::EmptyDestination);
    }
    let ghost views = spec_views_of(selected@);
    let mut repos: Vec<String> = Vec::new();
    let mut profiles: Vec<String> = Vec::new();
    let ghost pushed_repos: Seq<Seq<char>> = Seq::empty();
    let ghost pushed_profiles: Seq<Seq<char>> = Seq::empty();
    proof {
        assert(repos.deep_view() =~= spec_dedup(pushed_repos));
        assert(profiles.deep_view() =~= spec_dedup(pushed_profiles));
    }
    let mut i: usize = 0;
    while i < selected.len()
        invariant
            0 <= i <= selected.len(),
            views == spec_views_of(selected@),
            repos.deep_view() == spec_dedup(spec_selected_repo_names(views.take(i as int))),
            profiles.deep_view() == spec_dedup(spec_selected_profile_names(views.take(i as int))),
        decreases selected.len() - i,
    {
        let service = &selected[i];
        let ghost sv = views[i as int];
        match service.profile {
            Some(p) => {
                let ghost before = spec_selected_profile_names(views.take(i as int));
                push_dedup(
                    &mut profiles,
                    String::from_str(p.canonical_name()),
                    Ghost(before),
                );
                proof {
                    assert(views.take(i + 1).drop_last() =~= views.take(i as int));
                    assert(spec_selected_profile_names(views.take(i + 1)) =~= before.push(
                        spec_profile_name(p),
                    ));
                }
            },
            None => {
                proof {
                    assert(views.take(i + 1).drop_last() =~= views.take(i as int));
                    assert(spec_selected_profile_names(views.take(i + 1))
                        =~= spec_selected_profile_names(views.take(i as int)));
                }
            },
        }
        let ghost repo_base = spec_selected_repo_names(views.take(i as int));
        let ghost mapped = sv.repos.map_values(|r| spec_repo_name(r));
        let mut j: usize = 0;
        while j < service.repos.len()
            invariant
                0 <= j <= service.repos.len(),
                service == &selected@[i as int],
                sv == views[i as int],
                i < selected.len(),
                views == spec_views_of(selected@),
                mapped == sv.repos.map_values(|r| spec_repo_name(r)),
                repo_base == spec_selected_repo_names(views.take(i as int)),
                repos.deep_view() == spec_dedup(repo_base + mapped.take(j as int)),
            decreases service.repos.len() - j,
        {
            let name = String::from_str(service.repos[j].canonical_name());
            proof {
                assert((repo_base + mapped.take(j + 1)).drop_last() =~= repo_base + mapped.take(
                    j as int,
                ));
                assert((repo_base + mapped.take(j + 1)).last() == spec_repo_name(
                    sv.repos[j as int],
                ));
            }
            push_dedup(&mut repos, name, Ghost(repo_base + mapped.take(j as int)));
            proof {
                assert(spec_dedup((repo_base + mapped.take(j as int)).push(spec_repo_name(
                    sv.repos[j as int],
                ))) == spec_dedup(repo_base + mapped.take(j + 1))) by {
                    assert((repo_base + mapped.take(j as int)).push(spec_repo_name(
                        sv.repos[j as int],
                    )) =~= repo_base + mapped.take(j + 1));
                }
            }
            j += 1;
        }
        proof {
            assert(mapped.take(sv.repos.len() as int) =~= mapped);
            assert(views.take(i + 1).drop_last() =~= views.take(i as int));
            assert(spec_selected_repo_names(views.take(i + 1)) =~= repo_base + mapped);
        }
        i += 1;
    }
    proof {
        assert(views.take(selected@.len() as int) =~= views);
    }
    let su_password = compile_password(setup_database, su_password);
    let password = compile_password(setup_database, password);
    let c = Configuration { repos_dir, repos, profiles, setup_database, su_password, password };
    proof {
        lemma_dedup_properties(spec_selected_repo_names(views));
        lemma_dedup_properties(spec_selected_profile_names(views));
    }
    Ok(c)
}

/// A password field as compiled: forced empty without database setup,
/// defaulted to the fixed sentinel when left blank.
fn compile_password(setup_database: bool, given: String) -> (r: String)
    ensures
        r@ == spec_password_field(setup_database, given@),
{
    if !setup_database {
        String::new()
    } else if given.as_str().is_empty() {
        String::from_str("password")
    } else {
        given
    }
}

} // verus!
