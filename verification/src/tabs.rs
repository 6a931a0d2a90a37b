//! The protocol tabs: which protocols the list shows.

use crate::protocol::ProtocolFlags;
use vstd::prelude::*;

verus! {

/// One tab: its title, and the protocols whose sockets it shows.
pub struct StatefulTabItem {
    pub title: String,
    pub protocol: ProtocolFlags,
}

/// What a `StatefulTabItem` stands for.
pub struct TabModel {
    pub title: Seq<char>,
    pub protocol: ProtocolFlags,
}

impl View for StatefulTabItem {
    type V = TabModel;

    open spec fn view(&self) -> TabModel {
        TabModel { title: self.title@, protocol: self.protocol }
    }
}

/// What a row of tabs stands for.
pub open spec fn tab_models(items: Seq<StatefulTabItem>) -> Seq<TabModel> {
    items.map_values(|item: StatefulTabItem| item@)
}

/// The protocols of all the tabs together.
pub open spec fn all_protocols(tabs: Seq<TabModel>) -> ProtocolFlags
    decreases tabs.len(),
{
    if tabs.len() == 0 {
        ProtocolFlags { bits: 0 }
    } else {
        ProtocolFlags { bits: all_protocols(tabs.drop_last()).bits | tabs.last().protocol.bits }
    }
}

/// The tabs and the index of the one that is active.
pub struct StatefulTabs {
    pub items: Vec<StatefulTabItem>,
    pub index: usize,
}

impl StatefulTabs {
    /// Whether the index names one of the tabs. There is then at least one tab.
    pub open spec fn wf(&self) -> bool {
        self.index < self.items@.len()
    }

    /// The protocols of the active tab.
    pub open spec fn selected_mask(&self) -> ProtocolFlags
        recommends
            self.wf(),
    {
        self.items@[self.index as int].protocol
    }

    /// The tabs `items`, the first of them active.
    pub fn with_items(items: Vec<StatefulTabItem>) -> (tabs: StatefulTabs)
        ensures
            tabs.items == items,
            tabs.index == 0,
            tabs.wf() <==> items@.len() > 0,
    {
        StatefulTabs { items, index: 0 }
    }

    /// Makes the next tab active, the first one after the last.
    pub fn next(&mut self)
        requires
            old(self).wf(),
        ensures
            final(self).items == old(self).items,
            final(self).index == (old(self).index + 1) % (old(self).items@.len() as int),
            final(self).wf(),
    {
        let len: usize = self.items.len();
        self.index = (self.index + 1) % len;
    }

    /// Makes the previous tab active, the last one before the first.
    pub fn previous(&mut self)
        requires
            old(self).wf(),
        ensures
            final(self).items == old(self).items,
            final(self).index == if old(self).index == 0 {
                old(self).items@.len() - 1
            } else {
                old(self).index - 1
            },
            final(self).wf(),
    {
        if self.index > 0 {
            self.index -= 1;
        } else {
            self.index = self.items.len() - 1;
        }
    }

    /// The protocols of all the tabs together: what a snapshot has to cover
    /// to serve every tab.
    pub fn every_protocol(&self) -> (mask: ProtocolFlags)
        ensures
            mask == all_protocols(tab_models(self.items@)),
    {
        let mut mask = ProtocolFlags { bits: 0 };
        let mut i: usize = 0;
        assert(tab_models(self.items@).take(0) =~= Seq::<TabModel>::empty());
        while i < self.items.len()
            invariant
                i <= self.items.len(),
                mask == all_protocols(tab_models(self.items@).take(i as int)),
            decreases self.items.len() - i,
        {
            proof {
                let seen = tab_models(self.items@).take(i + 1);
                assert(seen.drop_last() =~= tab_models(self.items@).take(i as int));
                assert(seen.last() == self.items@[i as int]@);
            }
            mask = mask.union(self.items[i].protocol);
            i = i + 1;
        }
        assert(tab_models(self.items@).take(self.items.len() as int) =~= tab_models(self.items@));
        mask
    }

    /// The protocols of the active tab.
    pub fn selected_protocol(&self) -> (mask: ProtocolFlags)
        requires
            self.wf(),
        ensures
            mask == self.selected_mask(),
    {
        self.items[self.index].protocol
    }
}

} // verus!
