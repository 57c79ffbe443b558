//! The columns of the consolidated short interest dataset.

use vstd::prelude::*;

verus! {

/// This enum is used to limit which fields are included in the query results.
#[derive(Debug, Clone, Copy, PartialEq, Eq, Structural)]
pub enum ConsolidatedShortInterestField {
    StockSplitFlag,
    PreviousShortPositionQuantity,
    AverageDailyVolumeQuantity,
    IssueName,
    CurrentShortPositionQuantity,
    ChangePreviousNumber,
    AccountingYearMonthNumber,
    SettlementDate,
    MarketClassCode,
    SymbolCode,
    DaysToCoverQuantity,
    IssuerServicesGroupExchangeCode,
    RevisionFlag,
    ChangePercent,
}

impl ConsolidatedShortInterestField {
    /// The name under which the server knows this column.
    pub open spec fn name(self) -> Seq<char> {
        match self {
            Self::StockSplitFlag => "stockSplitFlag"@,
            Self::PreviousShortPositionQuantity => "previousShortPositionQuantity"@,
            Self::AverageDailyVolumeQuantity => "averageDailyVolumeQuantity"@,
            Self::IssueName => "issueName"@,
            Self::CurrentShortPositionQuantity => "currentShortPositionQuantity"@,
            Self::ChangePreviousNumber => "changePreviousNumber"@,
            Self::AccountingYearMonthNumber => "accountingYearMonthNumber"@,
            Self::SettlementDate => "settlementDate"@,
            Self::MarketClassCode => "marketClassCode"@,
            Self::SymbolCode => "symbolCode"@,
            Self::DaysToCoverQuantity => "daysToCoverQuantity"@,
            Self::IssuerServicesGroupExchangeCode => "issuerServicesGroupExchangeCode"@,
            Self::RevisionFlag => "revisionFlag"@,
            Self::ChangePercent => "changePercent"@,
        }
    }

    pub fn as_str(&self) -> (r: &'static str)
        ensures
            r@ == self.name(),
    {
        match self {
            Self::StockSplitFlag => "stockSplitFlag",
            Self::PreviousShortPositionQuantity => "previousShortPositionQuantity",
            Self::AverageDailyVolumeQuantity => "averageDailyVolumeQuantity",
            Self::IssueName => "issueName",
            Self::CurrentShortPositionQuantity => "currentShortPositionQuantity",
            Self::ChangePreviousNumber => "changePreviousNumber",
            Self::AccountingYearMonthNumber => "accountingYearMonthNumber",
            Self::SettlementDate => "settlementDate",
            Self::MarketClassCode => "marketClassCode",
            Self::SymbolCode => "symbolCode",
            Self::DaysToCoverQuantity => "daysToCoverQuantity",
            Self::IssuerServicesGroupExchangeCode => "issuerServicesGroupExchangeCode",
            Self::RevisionFlag => "revisionFlag",
            Self::ChangePercent => "changePercent",
        }
    }
}

} // verus!
