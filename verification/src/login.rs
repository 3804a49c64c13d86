//! Who may log in: the user who runs the server, with their system password or
//! with a fixed one.

use crate::text::{after_last, before_first, cut_after_last, cut_before_first, same};
use vstd::prelude::*;
use vstd::string::*;

verus! {

/// `s` in lower case.
pub uninterp spec fn lowercase(s: Seq<char>) -> Seq<char>;

/// `str::to_lowercase`: the lower case of a string, which depends on nothing but the
/// string.
#[verifier::external_body]
fn to_lowercase(s: &str) -> (r: String)
    ensures
        r@ == lowercase(s@),
{
    s.to_lowercase()
}

/// The account that a user name stands for. Clients may send `DOMAIN\user` or
/// `user@domain`; only the user part matters.
pub open spec fn account(username: Seq<char>) -> Seq<char> {
    before_first(after_last(username, '\\'), '@')
}

/// What comes of a login.
pub enum Verdict {
    Accept,
    Reject,
    /// It is up to the system: the login is good exactly if this password is the
    /// user's.
    AskSystem { user: String, password: String },
}

/// The rule for logins.
pub struct Login {
    /// The user who runs the server.
    pub user: String,
    /// A password that counts in place of the system's.
    pub fixed: Option<String>,
}

impl Login {
    /// The rule for `user`, with `pass` as the fixed password unless it is empty.
    pub fn new(user: String, pass: String) -> (r: Login)
        ensures
            r.user == user,
            r.fixed == if pass@.len() == 0 {
                None
            } else {
                Some(pass)
            },
    {
        let fixed: Option<String> = if pass.as_str().is_empty() {
            None
        } else {
            Some(pass)
        };
        Login { user, fixed }
    }

    /// What comes of a login for the account `asked`, where the server's own is `own`:
    /// another account is turned away, and then the password decides.
    pub open spec fn verdict(
        &self,
        asked: Seq<char>,
        own: Seq<char>,
        password: Seq<char>,
        v: Verdict,
    ) -> bool {
        if asked != own {
            v is Reject
        } else {
            match self.fixed {
                Some(fixed) => if password == fixed@ {
                    v is Accept
                } else {
                    v is Reject
                },
                None => v matches Verdict::AskSystem { user, password: p } && user@ == self.user@
                    && p@ == password,
            }
        }
    }

    /// Decides about a login for the account `asked`, where the server's own is `own`.
    pub fn decide(&self, asked: &str, own: &str, password: &str) -> (r: Verdict)
        ensures
            self.verdict(asked@, own@, password@, r),
    {
        if !same(asked, own) {
            return Verdict::Reject;
        }
        match &self.fixed {
            Some(fixed) => if same(password, fixed.as_str()) {
                Verdict::Accept
            } else {
                Verdict::Reject
            },
            None => Verdict::AskSystem {
                user: self.user.clone(),
                password: password.to_owned(),
            },
        }
    }

    /// Decides about a login. Accounts are compared without regard to case.
    pub fn validate(&self, username: &str, password: &str) -> (r: Verdict)
        ensures
            self.verdict(
                lowercase(account(username@)),
                lowercase(self.user@),
                password@,
                r,
            ),
            lowercase(account(username@)) != lowercase(self.user@) ==> r is Reject,
            lowercase(account(username@)) == lowercase(self.user@) && self.fixed is None
                ==> r is AskSystem,
            lowercase(account(username@)) == lowercase(self.user@) && self.fixed is Some ==> (r
                is Accept <==> password@ == self.fixed->0@),
    {
        let asked: String = to_lowercase(cut_before_first(cut_after_last(username, '\\'), '@'));
        let own: String = to_lowercase(self.user.as_str());
        self.decide(asked.as_str(), own.as_str(), password)
    }
}

/// What the system's password helper is told on its standard input: the password, closed
/// by a zero byte.
pub fn helper_input(password: &str) -> (r: Vec<u8>)
    ensures
        r@ == vstd::utf8::encode_utf8(password@).push(0),
{
    let mut v: Vec<u8> = password.as_bytes_vec();
    v.push(0);
    v
}

/// Arguments of the system's password helper: the user, and that an empty password may
/// be one.
pub fn helper_args(user: &str) -> (r: Vec<String>)
    ensures
        crate::args::texts(r@) == seq![user@, "nullok"@],
{
    let mut v: Vec<String> = Vec::new();
    v.push(user.to_owned());
    v.push("nullok".to_owned());
    proof {
        assert(crate::args::texts(v@) =~= seq![user@, "nullok"@]);
    }
    v
}

/// Whether a login is good, with what the helper said where it was asked.
pub fn admitted(verdict: &Verdict, helper_agrees: bool) -> (r: bool)
    ensures
        r <==> verdict is Accept || (verdict is AskSystem && helper_agrees),
        *verdict is Reject ==> !r,
        *verdict is AskSystem ==> r == helper_agrees,
{
    match verdict {
        Verdict::Accept => true,
        Verdict::Reject => false,
        Verdict::AskSystem { user: _, password: _ } => helper_agrees,
    }
}

/// A domain in front of the user name makes no difference.
pub proof fn law_domain_is_ignored(domain: Seq<char>, user: Seq<char>)
    ensures
        account(domain + seq!['\\'] + user) == account(user),
    decreases user.len(),
{
    lemma_after_last_of_rest(domain + seq!['\\'], user);
}

proof fn lemma_after_last_of_rest(front: Seq<char>, s: Seq<char>)
    requires
        front.len() > 0,
        front.last() == '\\',
    ensures
        after_last(front + s, '\\') == after_last(s, '\\'),
    decreases s.len(),
{
    let all = front + s;
    if s.len() == 0 {
        assert(all =~= front);
    } else {
        assert(all.last() == s.last());
        assert(all.drop_last() =~= front + s.drop_last());
        lemma_after_last_of_rest(front, s.drop_last());
    }
}

/// A realm behind the user name makes no difference.
pub proof fn law_realm_is_ignored(user: Seq<char>, realm: Seq<char>)
    requires
        !user.contains('\\'),
        !realm.contains('\\'),
    ensures
        account(user + seq!['@'] + realm) == account(user),
{
    let all = user + seq!['@'] + realm;
    assert forall|i: int| 0 <= i < all.len() implies all[i] != '\\' by {
        if i < user.len() {
            assert(user.contains(user[i]));
        } else if i > user.len() {
            assert(realm.contains(realm[i - user.len() - 1]));
        }
    }
    lemma_no_cut(all);
    assert forall|i: int| 0 <= i < user.len() implies user[i] != '\\' by {
        assert(user.contains(user[i]));
    }
    lemma_no_cut(user);
    lemma_before_first_of_front(user, seq!['@'] + realm);
    assert(user + (seq!['@'] + realm) =~= all);
}

proof fn lemma_no_cut(s: Seq<char>)
    requires
        forall|i: int| 0 <= i < s.len() ==> s[i] != '\\',
    ensures
        after_last(s, '\\') == s,
    decreases s.len(),
{
    if s.len() > 0 {
        lemma_no_cut(s.drop_last());
        assert(s.drop_last().push(s.last()) =~= s);
    }
}

proof fn lemma_before_first_of_front(s: Seq<char>, rest: Seq<char>)
    requires
        rest.len() > 0,
        rest[0] == '@',
    ensures
        before_first(s + rest, '@') == before_first(s, '@'),
    decreases s.len(),
{
    let all = s + rest;
    if s.len() == 0 {
        assert(all =~= rest);
    } else {
        assert(all[0] == s[0]);
        assert(all.drop_first() =~= s.drop_first() + rest);
        lemma_before_first_of_front(s.drop_first(), rest);
    }
}

/// Nobody but the user who runs the server gets in, whatever password they send.
pub proof fn law_others_are_turned_away(
    login: Login,
    username: Seq<char>,
    password: Seq<char>,
    v: Verdict,
)
    requires
        login.verdict(lowercase(account(username)), lowercase(login.user@), password, v),
        lowercase(account(username)) != lowercase(login.user@),
    ensures
        v is Reject,
{
}

/// With a fixed password the system is never asked, and nothing but that password
/// gets in.
pub proof fn law_fixed_password_decides(
    login: Login,
    username: Seq<char>,
    password: Seq<char>,
    v: Verdict,
)
    requires
        login.verdict(lowercase(account(username)), lowercase(login.user@), password, v),
        login.fixed is Some,
    ensures
        v !is AskSystem,
        v is Accept ==> password == login.fixed->0@,
{
}

/// A name without domain and realm is the account itself; with a domain in front, a realm
/// behind, or both, it is what stands between them.
pub proof fn law_account_is_the_user_part(domain: Seq<char>, user: Seq<char>, realm: Seq<char>)
    requires
        !user.contains('\\'),
        !user.contains('@'),
        !realm.contains('\\'),
    ensures
        account(user) == user,
        account(user + seq!['@'] + realm) == user,
        account(domain + seq!['\\'] + user) == user,
        account(domain + seq!['\\'] + (user + seq!['@'] + realm)) == user,
{
    law_domain_is_ignored(domain, user);
    law_domain_is_ignored(domain, user + seq!['@'] + realm);
    law_realm_is_ignored(user, realm);
    crate::text::law_cut_behind_the_last(domain, '\\', user);
    crate::text::law_cut_before_the_first(user, '@', realm);
}

/// The right account gets in with the fixed password if there is one, and is handed to the
/// system, with the password as it was sent and the name of the user who runs the server,
/// if there is none. With a fixed password no other gets in.
pub proof fn law_right_account_is_let_on(
    login: Login,
    name: Seq<char>,
    password: Seq<char>,
    v: Verdict,
)
    requires
        login.verdict(name, name, password, v),
    ensures
        login.fixed matches Some(fixed) ==> (v is Accept <==> password == fixed@) && (v is Reject
            <==> password != fixed@),
        login.fixed is None ==> (v matches Verdict::AskSystem { user, password: p } && user@
            == login.user@ && p@ == password),
{
}

} // verus!
