use vstd::prelude::*;
use vstd::string::StrSliceExecFns;

verus! {

/// Why configuration resolution failed.
#[derive(Clone, Copy, Debug, PartialEq, Eq, Structural)]
pub enum ConfigError {
    /// The repository argument does not have the form `owner/repo`
    /// with exactly one separator.
    RepositoryFormat,
    /// The token variable is absent from the environment.
    TokenMissing,
    /// The token variable is present but empty.
    TokenEmpty,
    /// The token holds a character that cannot stand in an HTTP
    /// header value.
    TokenInvalid,
}

/// The immutable configuration the whole program runs on: which
/// repository and workflow to query, and the bearer token to use.
pub struct ClientConfig {
    pub owner: String,
    pub repository: String,
    pub workflow: String,
    pub token: String,
}

/// How many `/` separators a string holds.
pub open spec fn slash_count(s: Seq<char>) -> nat
    decreases s.len(),
{
    if s.len() == 0 {
        0
    } else {
        slash_count(s.drop_last()) + if s.last() == '/' {
            1nat
        } else {
            0nat
        }
    }
}

/// A repository argument is valid when it holds exactly one `/`.
pub open spec fn valid_repo_arg(s: Seq<char>) -> bool {
    slash_count(s) == 1
}

proof fn lemma_slash_count_step(s: Seq<char>, i: int)
    requires
        0 <= i < s.len(),
    ensures
        slash_count(s.take(i + 1)) == slash_count(s.take(i)) + if s[i] == '/' {
            1nat
        } else {
            0nat
        },
{
    assert(s.take(i + 1).drop_last() =~= s.take(i));
    assert(s.take(i + 1).last() == s[i]);
}

proof fn lemma_slash_count_zero(s: Seq<char>)
    requires
        slash_count(s) == 0,
    ensures
        forall|i: int| 0 <= i < s.len() ==> s[i] != '/',
    decreases s.len(),
{
    if s.len() > 0 {
        lemma_slash_count_zero(s.drop_last());
        assert forall|i: int| 0 <= i < s.len() implies s[i] != '/' by {
            if i < s.len() - 1 {
                assert(s[i] == s.drop_last()[i]);
            } else {
                assert(s[i] == s.last());
            }
        }
    }
}

proof fn lemma_slash_count_append(a: Seq<char>, b: Seq<char>)
    ensures
        slash_count(a + b) == slash_count(a) + slash_count(b),
    decreases b.len(),
{
    if b.len() == 0 {
        assert(a + b =~= a);
    } else {
        lemma_slash_count_append(a, b.drop_last());
        assert((a + b).drop_last() =~= a + b.drop_last());
        assert((a + b).last() == b.last());
    }
}

/// Splits an `owner/repo` argument at its single separator.
///
/// Succeeds exactly on strings holding one `/`: the part before it is
/// the owner and the part after it is the repository, neither of which
/// can itself hold a `/`.
pub fn split_repository(arg: &str) -> (r: Result<(String, String), ConfigError>)
    ensures
        match r {
            Ok(pair) => valid_repo_arg(arg@) && arg@ =~= pair.0@ + seq!['/'] + pair.1@
                && !pair.0@.contains('/') && !pair.1@.contains('/'),
            Err(e) => e == ConfigError::RepositoryFormat && !valid_repo_arg(arg@),
        },
{
    let n = arg.unicode_len();
    let mut i: usize = 0;
    let mut count: usize = 0;
    let mut pos: usize = 0;
    while i < n
        invariant
            n == arg@.len(),
            0 <= i <= n,
            count == slash_count(arg@.take(i as int)),
            count <= i,
            count > 0 ==> pos < i && arg@[pos as int] == '/'
                && slash_count(arg@.take(pos as int)) == 0,
        decreases n - i,
    {
        proof {
            lemma_slash_count_step(arg@, i as int);
        }
        if arg.get_char(i) == '/' {
            if count == 0 {
                pos = i;
            }
            count = count + 1;
        }
        i = i + 1;
    }
    proof {
        assert(arg@.take(n as int) =~= arg@);
    }
    if count == 1 {
        let owner = arg.substring_char(0, pos).to_owned();
        let repo = arg.substring_char(pos + 1, n).to_owned();
        proof {
            assert(owner@ =~= arg@.take(pos as int));
            lemma_slash_count_zero(owner@);
            assert(arg@ =~= arg@.take(pos as int) + seq![arg@[pos as int]]
                + arg@.subrange(pos as int + 1, n as int));
            lemma_slash_count_append(
                arg@.take(pos as int) + seq![arg@[pos as int]],
                arg@.subrange(pos as int + 1, n as int),
            );
            lemma_slash_count_append(arg@.take(pos as int), seq![arg@[pos as int]]);
            assert(slash_count(seq!['/']) == 1) by {
                assert(seq!['/'].drop_last() =~= Seq::<char>::empty());
            }
            lemma_slash_count_zero(repo@);
        }
        Ok((owner, repo))
    } else {
        Err(ConfigError::RepositoryFormat)
    }
}

/// Builds the configuration from the repository argument, the workflow
/// argument and the token read from the environment, or says which
/// input was unacceptable.
///
/// The repository argument must split as `owner/repo`; the token must
/// be present and non-empty.
pub fn resolve_config(repository: &str, workflow: &str, token: Option<String>) -> (r: Result<
    ClientConfig,
    ConfigError,
>)
    ensures
        match r {
            Ok(c) => valid_repo_arg(repository@) && repository@ =~= c.owner@ + seq!['/']
                + c.repository@ && !c.owner@.contains('/') && !c.repository@.contains('/')
                && c.workflow@ == workflow@ && token is Some && c.token@ == token->0@
                && c.token@.len() > 0,
            Err(e) => match e {
                ConfigError::RepositoryFormat => !valid_repo_arg(repository@),
                ConfigError::TokenMissing => valid_repo_arg(repository@) && token is None,
                ConfigError::TokenEmpty => valid_repo_arg(repository@) && token is Some
                    && token->0@.len() == 0,
                ConfigError::TokenInvalid => false,
            },
        },
{
    let (owner, repo) = match split_repository(repository) {
        Ok(pair) => pair,
        Err(e) => {
            return Err(e);
        },
    };
    match token {
        None => Err(ConfigError::TokenMissing),
        Some(t) => {
            if t.as_str().unicode_len() == 0 {
                Err(ConfigError::TokenEmpty)
            } else {
                Ok(ClientConfig {
                    owner,
                    repository: repo,
                    workflow: workflow.to_owned(),
                    token: t,
                })
            }
        },
    }
}

} // verus!
