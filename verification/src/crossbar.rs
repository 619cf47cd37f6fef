//! The job registry: where its answers are to be asked for.

#![allow(non_snake_case)]

use crate::encoding::{base58_encode, base58_text, decimal_text, push_decimal};
use crate::pubkey::Pubkey;
use vstd::prelude::*;
use vstd::string::StringExecFns;

verus! {

/// What the registry answers when jobs were stored.
#[derive(Debug)]
pub struct StoreResponse {
    pub cid: String,
    pub feedHash: String,
    pub queueHex: String,
}

/// The networks on which feeds live.
#[derive(Clone, Copy, Debug, PartialEq, Eq, Structural)]
pub enum ClusterType {
    Testnet,
    MainnetBeta,
    Devnet,
    Development,
}

/// Why nothing can be asked of the registry, or why its answer is none.
#[derive(Clone, Copy, Debug, PartialEq, Eq, Structural)]
pub enum CrossbarError {
    /// No feed was named.
    EmptyFeeds,
    /// The registry answered with a status that is no success.
    BadStatus(u16),
}

/// The job registry at a given address.
#[derive(Clone, Debug)]
pub struct CrossbarClient {
    crossbar_url: String,
    verbose: bool,
}

/// The name of a network in the addresses of the registry.
pub open spec fn cluster_name(cluster_type: ClusterType) -> Seq<char> {
    match cluster_type {
        ClusterType::MainnetBeta => "mainnet-beta"@,
        ClusterType::Testnet => "testnet"@,
        ClusterType::Devnet => "devnet"@,
        ClusterType::Development => "development"@,
    }
}

/// The name of a network in the addresses of the registry.
pub fn cluster_type_to_string(cluster_type: ClusterType) -> (r: String)
    ensures
        r@ == cluster_name(cluster_type),
{
    match cluster_type {
        ClusterType::MainnetBeta => "mainnet-beta".to_owned(),
        ClusterType::Testnet => "testnet".to_owned(),
        ClusterType::Devnet => "devnet".to_owned(),
        ClusterType::Development => "development".to_owned(),
    }
}

/// The texts of `parts` with a comma between every two of them.
pub open spec fn joined(parts: Seq<Seq<char>>) -> Seq<char>
    decreases parts.len(),
{
    if parts.len() == 0 {
        Seq::empty()
    } else if parts.len() == 1 {
        parts[0]
    } else {
        joined(parts.drop_last()) + seq![','] + parts.last()
    }
}

/// The base-58 forms of `keys`.
pub open spec fn key_texts(keys: Seq<Pubkey>) -> Seq<Seq<char>> {
    Seq::new(keys.len(), |i: int| base58_text(keys[i]@))
}

/// The views of `texts`.
pub open spec fn text_views(texts: Seq<&str>) -> Seq<Seq<char>> {
    Seq::new(texts.len(), |i: int| texts[i]@)
}

/// Appends the base-58 forms of `keys`, with a comma between every two.
fn push_keys(text: &mut String, keys: &[Pubkey])
    ensures
        final(text)@ == old(text)@ + joined(key_texts(keys@)),
{
    let mut i: usize = 0;
    proof {
        assert(key_texts(keys@.subrange(0, 0)) =~= Seq::<Seq<char>>::empty());
        assert(text@ =~= old(text)@ + joined(key_texts(keys@.subrange(0, 0))));
    }
    while i < keys.len()
        invariant
            i <= keys@.len(),
            text@ == old(text)@ + joined(key_texts(keys@.subrange(0, i as int))),
        decreases keys@.len() - i,
    {
        if i > 0 {
            text.append(",");
        }
        let key = base58_encode(&keys[i].bytes);
        text.append(key.as_str());
        proof {
            reveal_strlit(",");
            let upto = key_texts(keys@.subrange(0, i + 1));
            assert(upto.drop_last() =~= key_texts(keys@.subrange(0, i as int)));
            assert(upto.last() == key@);
            assert(","@ =~= seq![',']);
            assert(text@ =~= old(text)@ + joined(upto));
        }
        i += 1;
    }
    assert(keys@.subrange(0, i as int) =~= keys@);
}

impl Default for CrossbarClient {
    fn default() -> (r: Self)
        ensures
            r.url() == "https://crossbar.switchboard.xyz"@,
            !r.is_verbose(),
    {
        Self::new("https://crossbar.switchboard.xyz", false)
    }
}

impl CrossbarClient {
    /// The address of the registry.
    pub closed spec fn url(&self) -> Seq<char> {
        self.crossbar_url@
    }

    /// Whether answers that are no success are to be printed.
    pub closed spec fn is_verbose(&self) -> bool {
        self.verbose
    }

    /// The registry at `crossbar_url`.
    pub fn new(crossbar_url: &str, verbose: bool) -> (r: Self)
        ensures
            r.url() == crossbar_url@,
            r.is_verbose() == verbose,
    {
        Self { crossbar_url: crossbar_url.to_owned(), verbose }
    }

    /// Whether answers that are no success are to be printed.
    pub fn verbose(&self) -> (r: bool)
        ensures
            r == self.is_verbose(),
    {
        self.verbose
    }

    /// The address that answers with the jobs of the feed hash `feed_hash`.
    pub fn fetch(&self, feed_hash: &str) -> (r: String)
        ensures
            r@ == self.url() + "/fetch/"@ + feed_hash@,
    {
        let mut url = self.crossbar_url.clone();
        url.append("/fetch/");
        url.append(feed_hash);
        url
    }

    /// Where jobs are stored for the queue at `queue_address`: the address to
    /// post to, and the queue as the body of the request names it.
    pub fn store(&self, queue_address: Pubkey) -> (r: (String, String))
        ensures
            r.0@ == self.url() + "/store"@,
            r.1@ == base58_text(queue_address@),
    {
        let mut url = self.crossbar_url.clone();
        url.append("/store");
        (url, base58_encode(&queue_address.bytes))
    }

    /// The address that answers with the updates of the feeds `feed_pubkeys`
    /// on `network`, signed by `num_signatures` oracles where a number is
    /// given. There is none where no feed is named.
    pub fn fetch_solana_updates(
        &self,
        network: ClusterType,
        feed_pubkeys: &[Pubkey],
        num_signatures: Option<usize>,
    ) -> (r: Result<String, CrossbarError>)
        ensures
            feed_pubkeys@.len() == 0 ==> r == Err::<String, CrossbarError>(
                CrossbarError::EmptyFeeds,
            ),
            feed_pubkeys@.len() > 0 ==> r is Ok && r->Ok_0@ == self.url() + "/updates/solana/"@
                + cluster_name(network) + seq!['/'] + joined(key_texts(feed_pubkeys@))
                + match num_signatures {
                Some(n) => "?numSignatures="@ + decimal_text(n as nat),
                None => Seq::empty(),
            },
    {
        if feed_pubkeys.len() == 0 {
            return Err(CrossbarError::EmptyFeeds);
        }
        let mut url = self.crossbar_url.clone();
        url.append("/updates/solana/");
        let network = cluster_type_to_string(network);
        url.append(network.as_str());
        url.append("/");
        push_keys(&mut url, feed_pubkeys);
        let ghost head = url@;
        match num_signatures {
            Some(n) => {
                url.append("?numSignatures=");
                push_decimal(&mut url, n as u64);
                assert(url@ =~= head + ("?numSignatures="@ + decimal_text(n as nat)));
            },
            None => {
                assert(url@ =~= head + Seq::<char>::empty());
            },
        }
        proof {
            reveal_strlit("/");
            assert("/"@ =~= seq!['/']);
        }
        Ok(url)
    }

    /// The address that answers with simulated results of the feeds
    /// `feed_pubkeys` on `network`. There is none where no feed is named.
    pub fn simulate_solana_feeds(&self, network: ClusterType, feed_pubkeys: &[Pubkey]) -> (r: Result<
        String,
        CrossbarError,
    >)
        ensures
            feed_pubkeys@.len() == 0 ==> r == Err::<String, CrossbarError>(
                CrossbarError::EmptyFeeds,
            ),
            feed_pubkeys@.len() > 0 ==> r is Ok && r->Ok_0@ == self.url() + "/simulate/solana/"@
                + cluster_name(network) + seq!['/'] + joined(key_texts(feed_pubkeys@)),
    {
        if feed_pubkeys.len() == 0 {
            return Err(CrossbarError::EmptyFeeds);
        }
        let mut url = self.crossbar_url.clone();
        url.append("/simulate/solana/");
        let network = cluster_type_to_string(network);
        url.append(network.as_str());
        url.append("/");
        push_keys(&mut url, feed_pubkeys);
        proof {
            reveal_strlit("/");
            assert("/"@ =~= seq!['/']);
        }
        Ok(url)
    }

    /// The address that answers with simulated results of the feeds with the
    /// hashes `feed_hashes`. There is none where no hash is named.
    pub fn simulate_feeds(&self, feed_hashes: &[&str]) -> (r: Result<String, CrossbarError>)
        ensures
            feed_hashes@.len() == 0 ==> r == Err::<String, CrossbarError>(
                CrossbarError::EmptyFeeds,
            ),
            feed_hashes@.len() > 0 ==> r is Ok && r->Ok_0@ == self.url() + "/simulate/"@ + joined(
                text_views(feed_hashes@),
            ),
    {
        if feed_hashes.len() == 0 {
            return Err(CrossbarError::EmptyFeeds);
        }
        let mut url = self.crossbar_url.clone();
        url.append("/simulate/");
        let ghost head = url@;
        let mut i: usize = 0;
        proof {
            assert(text_views(feed_hashes@.subrange(0, 0)) =~= Seq::<Seq<char>>::empty());
            assert(url@ =~= head + joined(text_views(feed_hashes@.subrange(0, 0))));
        }
        while i < feed_hashes.len()
            invariant
                i <= feed_hashes@.len(),
                url@ == head + joined(text_views(feed_hashes@.subrange(0, i as int))),
            decreases feed_hashes@.len() - i,
        {
            if i > 0 {
                url.append(",");
            }
            url.append(feed_hashes[i]);
            proof {
                reveal_strlit(",");
                let upto = text_views(feed_hashes@.subrange(0, i + 1));
                assert(upto.drop_last() =~= text_views(feed_hashes@.subrange(0, i as int)));
                assert(upto.last() == feed_hashes@[i as int]@);
                assert(","@ =~= seq![',']);
                assert(url@ =~= head + joined(upto));
            }
            i += 1;
        }
        assert(feed_hashes@.subrange(0, i as int) =~= feed_hashes@);
        Ok(url)
    }

    /// Whether the registry answered with success: a status from 200 to 299.
    pub fn check_status(status: u16) -> (r: Result<(), CrossbarError>)
        ensures
            200 <= status < 300 ==> r is Ok,
            !(200 <= status < 300) ==> r == Err::<(), CrossbarError>(
                CrossbarError::BadStatus(status),
            ),
    {
        if status >= 200 && status < 300 {
            Ok(())
        } else {
            Err(CrossbarError::BadStatus(status))
        }
    }
}

} // verus!
