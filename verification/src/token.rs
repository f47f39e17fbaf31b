use vstd::prelude::*;
use crate::ast::Span;

verus! {

/// A token of Lumina source; a number carries its IEEE-754 double bits.
#[derive(Debug)]
pub enum Token {
    KwEntity,
    KwLet,
    KwRule,
    KwWhen,
    KwThen,
    KwBecomes,
    KwFor,
    KwEvery,
    KwExternal,
    KwSync,
    KwOn,
    KwShow,
    KwUpdate,
    KwTo,
    KwCreate,
    KwDelete,
    KwIf,
    KwElse,
    KwAnd,
    KwOr,
    KwNot,
    KwTrue,
    KwFalse,
    KwTypeText,
    KwTypeNumber,
    KwTypeBoolean,
    KwFn,
    Import,
    KwPrev,
    KwAny,
    KwAll,
    Alert,
    Severity,
    Aggregate,
    Over,
    Cooldown,
    Clear,
    KwPollInterval,
    KwSyncOn,
    KwRef,
    KwTimes,
    KwWithin,
    KwWrite,
    KwTypeTimestamp,
    KwNow,
    KwPlugin,
    KwAs,
    KwTypeSecret,
    KwTimeout,
    KwFallible,
    KwUnknown,
    KwProvider,
    KwEnv,
    KwFrom,
    KwCredentials,
    KwEndpoint,
    KwCluster,
    KwNodeId,
    KwPeers,
    KwQuorum,
    KwElectionTimeout,
    KwMigrate,
    KwEvacuate,
    KwDeploy,
    KwBindAddr,
    KwRegion,
    ColonColon,
    ColonEq,
    Colon,
    EqEq,
    Eq,
    BangEq,
    GtEq,
    LtEq,
    Gt,
    Lt,
    Plus,
    Minus,
    Star,
    Slash,
    LBrace,
    RBrace,
    LParen,
    RParen,
    Comma,
    Dot,
    At,
    Arrow,
    LBracket,
    RBracket,
    Number(u64),
    Text(String),
    InterpStringStart,
    InterpPart(String),
    InterpExprStart,
    InterpExprEnd,
    InterpStringEnd,
    Ident(String),
    Newline,
}

/// How a token is named in messages; a number is named by the text given for it.
pub open spec fn human_text(t: Token, number_text: Seq<char>) -> Seq<char> {
    match t {
        Token::KwEntity => "keyword 'entity'"@,
        Token::KwLet => "keyword 'let'"@,
        Token::KwRule => "keyword 'rule'"@,
        Token::KwWhen => "keyword 'when'"@,
        Token::KwThen => "keyword 'then'"@,
        Token::KwBecomes => "keyword 'becomes'"@,
        Token::KwFor => "keyword 'for'"@,
        Token::KwEvery => "keyword 'every'"@,
        Token::KwExternal => "keyword 'external'"@,
        Token::KwSync => "keyword 'sync'"@,
        Token::KwOn => "keyword 'on'"@,
        Token::KwShow => "keyword 'show'"@,
        Token::KwUpdate => "keyword 'update'"@,
        Token::KwTo => "keyword 'to'"@,
        Token::KwCreate => "keyword 'create'"@,
        Token::KwDelete => "keyword 'delete'"@,
        Token::KwIf => "keyword 'if'"@,
        Token::KwElse => "keyword 'else'"@,
        Token::KwAnd => "keyword 'and'"@,
        Token::KwOr => "keyword 'or'"@,
        Token::KwNot => "keyword 'not'"@,
        Token::KwTrue => "boolean 'true'"@,
        Token::KwFalse => "boolean 'false'"@,
        Token::KwTypeText => "type 'Text'"@,
        Token::KwTypeNumber => "type 'Number'"@,
        Token::KwTypeBoolean => "type 'Boolean'"@,
        Token::KwFn => "keyword 'fn'"@,
        Token::Import => "keyword 'import'"@,
        Token::KwPrev => "keyword 'prev'"@,
        Token::KwAny => "keyword 'any'"@,
        Token::KwAll => "keyword 'all'"@,
        Token::Alert => "keyword 'alert'"@,
        Token::Severity => "keyword 'severity'"@,
        Token::Aggregate => "keyword 'aggregate'"@,
        Token::Over => "keyword 'over'"@,
        Token::Cooldown => "keyword 'cooldown'"@,
        Token::Clear => "keyword 'clear'"@,
        Token::KwPollInterval => "keyword 'poll_interval'"@,
        Token::KwSyncOn => "keyword 'sync_on'"@,
        Token::KwRef => "keyword 'ref'"@,
        Token::KwTimes => "keyword 'times'"@,
        Token::KwWithin => "keyword 'within'"@,
        Token::KwWrite => "keyword 'write'"@,
        Token::KwTypeTimestamp => "type 'Timestamp'"@,
        Token::KwNow => "keyword 'now'"@,
        Token::KwPlugin => "keyword 'plugin'"@,
        Token::KwAs => "keyword 'as'"@,
        Token::KwTypeSecret => "type 'Secret'"@,
        Token::KwTimeout => "keyword 'timeout'"@,
        Token::KwFallible => "keyword 'fallible'"@,
        Token::KwUnknown => "keyword 'unknown'"@,
        Token::KwProvider => "keyword 'provider'"@,
        Token::KwEnv => "keyword 'env'"@,
        Token::KwFrom => "keyword 'from'"@,
        Token::KwCredentials => "keyword 'credentials'"@,
        Token::KwEndpoint => "keyword 'endpoint'"@,
        Token::KwCluster => "keyword 'cluster'"@,
        Token::KwNodeId => "keyword 'node_id'"@,
        Token::KwPeers => "keyword 'peers'"@,
        Token::KwQuorum => "keyword 'quorum'"@,
        Token::KwElectionTimeout => "keyword 'election_timeout'"@,
        Token::KwMigrate => "keyword 'migrate'"@,
        Token::KwEvacuate => "keyword 'evacuate'"@,
        Token::KwDeploy => "keyword 'deploy'"@,
        Token::KwBindAddr => "keyword 'bind_addr'"@,
        Token::KwRegion => "keyword 'region'"@,
        Token::ColonColon => "'::'"@,
        Token::ColonEq => "':='"@,
        Token::Colon => "':'"@,
        Token::EqEq => "'=='"@,
        Token::Eq => "'='"@,
        Token::BangEq => "'!='"@,
        Token::GtEq => "'>='"@,
        Token::LtEq => "'<='"@,
        Token::Gt => "'>'"@,
        Token::Lt => "'<'"@,
        Token::Plus => "'+'"@,
        Token::Minus => "'-'"@,
        Token::Star => "'*'"@,
        Token::Slash => "'/'"@,
        Token::LBrace => "'{'"@,
        Token::RBrace => "'}'"@,
        Token::LParen => "'('"@,
        Token::RParen => "')'"@,
        Token::Comma => "','"@,
        Token::Dot => "'.'"@,
        Token::At => "'@'"@,
        Token::Arrow => "'->'"@,
        Token::LBracket => "'['"@,
        Token::RBracket => "']'"@,
        Token::Number(_) => "number '"@ + number_text + "'"@,
        Token::Text(s) => "text \""@ + s@ + "\""@,
        Token::InterpStringStart => "start of string"@,
        Token::InterpPart(s) => "string segment '"@ + s@ + "'"@,
        Token::InterpExprStart => "'${'"@,
        Token::InterpExprEnd => "'}'"@,
        Token::InterpStringEnd => "end of string"@,
        Token::Ident(s) => "identifier '"@ + s@ + "'"@,
        Token::Newline => "newline"@,
    }
}

impl Token {
    /// How the token is named in messages; `number_text` is the text of a number token.
    pub fn to_human_string(&self, number_text: &str) -> (s: String)
        ensures
            s@ == human_text(*self, number_text@),
    {
        match self {
            Token::KwEntity => String::from_str("keyword 'entity'"),
            Token::KwLet => String::from_str("keyword 'let'"),
            Token::KwRule => String::from_str("keyword 'rule'"),
            Token::KwWhen => String::from_str("keyword 'when'"),
            Token::KwThen => String::from_str("keyword 'then'"),
            Token::KwBecomes => String::from_str("keyword 'becomes'"),
            Token::KwFor => String::from_str("keyword 'for'"),
            Token::KwEvery => String::from_str("keyword 'every'"),
            Token::KwExternal => String::from_str("keyword 'external'"),
            Token::KwSync => String::from_str("keyword 'sync'"),
            Token::KwOn => String::from_str("keyword 'on'"),
            Token::KwShow => String::from_str("keyword 'show'"),
            Token::KwUpdate => String::from_str("keyword 'update'"),
            Token::KwTo => String::from_str("keyword 'to'"),
            Token::KwCreate => String::from_str("keyword 'create'"),
            Token::KwDelete => String::from_str("keyword 'delete'"),
            Token::KwIf => String::from_str("keyword 'if'"),
            Token::KwElse => String::from_str("keyword 'else'"),
            Token::KwAnd => String::from_str("keyword 'and'"),
            Token::KwOr => String::from_str("keyword 'or'"),
            Token::KwNot => String::from_str("keyword 'not'"),
            Token::KwTrue => String::from_str("boolean 'true'"),
            Token::KwFalse => String::from_str("boolean 'false'"),
            Token::KwTypeText => String::from_str("type 'Text'"),
            Token::KwTypeNumber => String::from_str("type 'Number'"),
            Token::KwTypeBoolean => String::from_str("type 'Boolean'"),
            Token::KwFn => String::from_str("keyword 'fn'"),
            Token::Import => String::from_str("keyword 'import'"),
            Token::KwPrev => String::from_str("keyword 'prev'"),
            Token::KwAny => String::from_str("keyword 'any'"),
            Token::KwAll => String::from_str("keyword 'all'"),
            Token::Alert => String::from_str("keyword 'alert'"),
            Token::Severity => String::from_str("keyword 'severity'"),
            Token::Aggregate => String::from_str("keyword 'aggregate'"),
            Token::Over => String::from_str("keyword 'over'"),
            Token::Cooldown => String::from_str("keyword 'cooldown'"),
            Token::Clear => String::from_str("keyword 'clear'"),
            Token::KwPollInterval => String::from_str("keyword 'poll_interval'"),
            Token::KwSyncOn => String::from_str("keyword 'sync_on'"),
            Token::KwRef => String::from_str("keyword 'ref'"),
            Token::KwTimes => String::from_str("keyword 'times'"),
            Token::KwWithin => String::from_str("keyword 'within'"),
            Token::KwWrite => String::from_str("keyword 'write'"),
            Token::KwTypeTimestamp => String::from_str("type 'Timestamp'"),
            Token::KwNow => String::from_str("keyword 'now'"),
            Token::KwPlugin => String::from_str("keyword 'plugin'"),
            Token::KwAs => String::from_str("keyword 'as'"),
            Token::KwTypeSecret => String::from_str("type 'Secret'"),
            Token::KwTimeout => String::from_str("keyword 'timeout'"),
            Token::KwFallible => String::from_str("keyword 'fallible'"),
            Token::KwUnknown => String::from_str("keyword 'unknown'"),
            Token::KwProvider => String::from_str("keyword 'provider'"),
            Token::KwEnv => String::from_str("keyword 'env'"),
            Token::KwFrom => String::from_str("keyword 'from'"),
            Token::KwCredentials => String::from_str("keyword 'credentials'"),
            Token::KwEndpoint => String::from_str("keyword 'endpoint'"),
            Token::KwCluster => String::from_str("keyword 'cluster'"),
            Token::KwNodeId => String::from_str("keyword 'node_id'"),
            Token::KwPeers => String::from_str("keyword 'peers'"),
            Token::KwQuorum => String::from_str("keyword 'quorum'"),
            Token::KwElectionTimeout => String::from_str("keyword 'election_timeout'"),
            Token::KwMigrate => String::from_str("keyword 'migrate'"),
            Token::KwEvacuate => String::from_str("keyword 'evacuate'"),
            Token::KwDeploy => String::from_str("keyword 'deploy'"),
            Token::KwBindAddr => String::from_str("keyword 'bind_addr'"),
            Token::KwRegion => String::from_str("keyword 'region'"),
            Token::ColonColon => String::from_str("'::'"),
            Token::ColonEq => String::from_str("':='"),
            Token::Colon => String::from_str("':'"),
            Token::EqEq => String::from_str("'=='"),
            Token::Eq => String::from_str("'='"),
            Token::BangEq => String::from_str("'!='"),
            Token::GtEq => String::from_str("'>='"),
            Token::LtEq => String::from_str("'<='"),
            Token::Gt => String::from_str("'>'"),
            Token::Lt => String::from_str("'<'"),
            Token::Plus => String::from_str("'+'"),
            Token::Minus => String::from_str("'-'"),
            Token::Star => String::from_str("'*'"),
            Token::Slash => String::from_str("'/'"),
            Token::LBrace => String::from_str("'{'"),
            Token::RBrace => String::from_str("'}'"),
            Token::LParen => String::from_str("'('"),
            Token::RParen => String::from_str("')'"),
            Token::Comma => String::from_str("','"),
            Token::Dot => String::from_str("'.'"),
            Token::At => String::from_str("'@'"),
            Token::Arrow => String::from_str("'->'"),
            Token::LBracket => String::from_str("'['"),
            Token::RBracket => String::from_str("']'"),
            Token::Number(_) => {
                let mut s = String::from_str("number '");
                s.append(number_text);
                s.append("'");
                s
            },
            Token::Text(t) => {
                let mut s = String::from_str("text \"");
                s.append(t.as_str());
                s.append("\"");
                s
            },
            Token::InterpStringStart => String::from_str("start of string"),
            Token::InterpPart(t) => {
                let mut s = String::from_str("string segment '");
                s.append(t.as_str());
                s.append("'");
                s
            },
            Token::InterpExprStart => String::from_str("'${'"),
            Token::InterpExprEnd => String::from_str("'}'"),
            Token::InterpStringEnd => String::from_str("end of string"),
            Token::Ident(t) => {
                let mut s = String::from_str("identifier '");
                s.append(t.as_str());
                s.append("'");
                s
            },
            Token::Newline => String::from_str("newline"),
        }
    }
}

/// A token and where it stands.
pub struct SpannedToken {
    pub token: Token,
    pub span: Span,
}

} // verus!
