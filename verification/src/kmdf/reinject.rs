//! The driver's reinjection table: the fixed table with 256 slots.
use vstd::prelude::*;
use crate::kmdf_core::{FixedReinjectionTable, ReinjectionError, ReinjectionToken, TokenTableView, spec_issue, spec_consume, table_wf, tokens_unique, lemma_table_ops_keep_tokens_unique};

verus! {

/// How many packets can await reinjection at once.
pub const REINJECTION_CAPACITY: usize = 256;

/// Tokens for packets handed to user mode and awaiting reinjection.
#[derive(Debug, Clone)]
pub struct ReinjectionTable {
    inner: FixedReinjectionTable<256>,
}

impl Default for ReinjectionTable {
    /// An empty table whose first token is 1.
    fn default() -> (t: ReinjectionTable)
        ensures
            t.wf(),
            t.spec_view().next_token == 1,
            t.spec_view().slots == Seq::new(256, |i: int| None::<(u64, u64)>),
    {
        let inner = FixedReinjectionTable::<256>::new();
        ReinjectionTable { inner }
    }
}

impl ReinjectionTable {
    /// The issued tokens and their packets.
    pub closed spec fn spec_view(&self) -> TokenTableView {
        self.inner.view()
    }

    /// The table is well formed and no token is issued twice.
    pub closed spec fn wf(&self) -> bool {
        &&& self.inner.wf()
        &&& tokens_unique(self.inner.view())
    }

    /// What `wf` promises about the abstract table.
    pub proof fn lemma_wf(&self)
        requires
            self.wf(),
        ensures
            table_wf(self.spec_view(), 256),
            tokens_unique(self.spec_view()),
    {
    }

    /// Issues a fresh token for a packet, evicting the oldest entry when
    /// the table is full.
    pub fn issue_for_network_packet(&mut self, packet_id: u64) -> (token: ReinjectionToken)
        requires
            old(self).wf(),
        ensures
            final(self).wf(),
            (final(self).spec_view(), token.spec_raw()) == spec_issue(old(self).spec_view(), 256, packet_id),
    {
        proof {
            lemma_table_ops_keep_tokens_unique(self.inner.view(), 256, packet_id, 0);
        }
        self.inner.issue_for_network_packet(packet_id)
    }

    /// Redeems a token once, giving its packet.
    pub fn consume(&mut self, token: ReinjectionToken) -> (r: Result<u64, ReinjectionError>)
        requires
            old(self).wf(),
        ensures
            final(self).wf(),
            (final(self).spec_view(), r) == spec_consume(old(self).spec_view(), token.spec_raw()),
    {
        proof {
            lemma_table_ops_keep_tokens_unique(self.inner.view(), 256, 0, token.spec_raw());
        }
        self.inner.consume(token)
    }

    /// Redeems a token given by its raw value.
    pub fn consume_raw(&mut self, token: u64) -> (r: Result<u64, ReinjectionError>)
        requires
            old(self).wf(),
        ensures
            final(self).wf(),
            (final(self).spec_view(), r) == spec_consume(old(self).spec_view(), token),
    {
        proof {
            lemma_table_ops_keep_tokens_unique(self.inner.view(), 256, 0, token);
        }
        self.inner.consume_raw(token)
    }
}

} // verus!
