use vstd::prelude::*;

verus! {

/// The topic of an SDO: a known topic, or any other code, kept as it is.
#[derive(Clone, Copy, Debug, PartialEq, Eq, Structural)]
pub enum Topic {
    Td1,
    Td4,
    Tr12,
    Td845,
    Td847,
    Tr922,
    Tr970,
    Tr1684,
    Tr1724,
    Td1981,
    Tr2361,
    Tr2939,
    Tr2963,
    Tr3424,
    Tr1748,
    Tr1749,
    Tr2748,
    Td2751,
    Tr2753,
    Td2756,
    TdQuote,
    TdExtPrice,
    TrWatchlist,
    TrLogin,
    TrLoginInfo,
    TdLogin,
    TdLoginInfo,
    TdLogout,
    TdAction,
    TdStartWatch,
    TrStopWatch,
    TdMetaRequest,
    TrMetaRequest,
    TdError,
    TrForceError,
    TdMessage,
    TdAlert,
    TrPing,
    TdPing,
    TdIosAccDetail,
    TdIosLogin,
    TdIosGeneral,
    TdControl,
    TdTopDown,
    TdTopUp,
    TdTopVal,
    TdTopVol,
    TdTopupPoint,
    TdTopdownPoint,
    TrIosGetPortfolio,
    TdIosPortfolio,
    TdIosAlertMessage,
    TdNewsLibrary,
    TdExchangeTime,
    TdIosOrders,
    UndefinedTopic,
    UserDefinedTopic,
    TdPricestepsGeneral,
    TrCmdExchList,
    TdCmdExchList,
    TrCaf,
    TdCaf,
    TdIosPortfolioGroup,
    TdIosCashManagementTrust,
    MExchanges,
    Unknown351,
    Unknown484,
    Unknown614,
    Unknown1581,
    Unknown1687,
    Unknown1725Destination,
    Unknown1868,
    Unknown1994,
    Unknown2025,
    Unknown2324,
    Unknown2329,
    Unknown2412,
    Unknown2465,
    Unknown2519,
    Unknown2771,
    Unknown2777,
    Unknown2783,
    Unknown2787,
    Unknown2781,
    Unknown2757,
    Unknown2840,
    Unknown2872,
    Unknown2951,
    Unknown2977,
    Unknown3097,
    Unknown3137,
    Unknown3260,
    Unknown3314,
    Unknown3338,
    Unknown3339,
    Unknown3348,
    Unknown3349,
    Unknown3455,
    Unknown3468,
    Unknown3479,
    Unknown3491,
    Unknown3530,
    Unknown3643,
    Unknown3651,
    Unknown3751,
    /// A code that is none of the known topics.
    Other(i32),
}

impl Topic {
    /// The code of a topic.
    pub open spec fn spec_code(self) -> i32 {
        match self {
            Topic::Td1 => 1i32,
            Topic::Td4 => 4i32,
            Topic::Tr12 => 12i32,
            Topic::Td845 => 845i32,
            Topic::Td847 => 847i32,
            Topic::Tr922 => 922i32,
            Topic::Tr970 => 970i32,
            Topic::Tr1684 => 1684i32,
            Topic::Tr1724 => 1724i32,
            Topic::Td1981 => 1981i32,
            Topic::Tr2361 => 2361i32,
            Topic::Tr2939 => 2939i32,
            Topic::Tr2963 => 2963i32,
            Topic::Tr3424 => 3424i32,
            Topic::Tr1748 => 1748i32,
            Topic::Tr1749 => 1749i32,
            Topic::Tr2748 => 2748i32,
            Topic::Td2751 => 2751i32,
            Topic::Tr2753 => 2753i32,
            Topic::Td2756 => 2756i32,
            Topic::TdQuote => 0i32,
            Topic::TdExtPrice => 10i32,
            Topic::TrWatchlist => 14i32,
            Topic::TrLogin => 1012i32,
            Topic::TrLoginInfo => 1013i32,
            Topic::TdLogin => 508i32,
            Topic::TdLoginInfo => 509i32,
            Topic::TdLogout => 2575i32,
            Topic::TdAction => 272i32,
            Topic::TdStartWatch => 1341i32,
            Topic::TrStopWatch => 1110i32,
            Topic::TdMetaRequest => 1851i32,
            Topic::TrMetaRequest => 1852i32,
            Topic::TdError => 406i32,
            Topic::TrForceError => 99999i32,
            Topic::TdMessage => 528i32,
            Topic::TdAlert => 1230i32,
            Topic::TrPing => 1579i32,
            Topic::TdPing => 1580i32,
            Topic::TdIosAccDetail => 482i32,
            Topic::TdIosLogin => 495i32,
            Topic::TdIosGeneral => 984i32,
            Topic::TdControl => 379i32,
            Topic::TdTopDown => 840i32,
            Topic::TdTopUp => 841i32,
            Topic::TdTopVal => 842i32,
            Topic::TdTopVol => 843i32,
            Topic::TdTopupPoint => 2655i32,
            Topic::TdTopdownPoint => 2656i32,
            Topic::TrIosGetPortfolio => 2743i32,
            Topic::TdIosPortfolio => 2746i32,
            Topic::TdIosAlertMessage => 2936i32,
            Topic::TdNewsLibrary => 1736i32,
            Topic::TdExchangeTime => 1282i32,
            Topic::TdIosOrders => 1686i32,
            Topic::UndefinedTopic => -1i32,
            Topic::UserDefinedTopic => -2i32,
            Topic::TdPricestepsGeneral => 2452i32,
            Topic::TrCmdExchList => 3088i32,
            Topic::TdCmdExchList => 3089i32,
            Topic::TrCaf => 3636i32,
            Topic::TdCaf => 3637i32,
            Topic::TdIosPortfolioGroup => 3050i32,
            Topic::TdIosCashManagementTrust => 3095i32,
            Topic::MExchanges => 3465i32,
            Topic::Unknown351 => 351i32,
            Topic::Unknown484 => 484i32,
            Topic::Unknown614 => 614i32,
            Topic::Unknown1581 => 1581i32,
            Topic::Unknown1687 => 1687i32,
            Topic::Unknown1725Destination => 1725i32,
            Topic::Unknown1868 => 1868i32,
            Topic::Unknown1994 => 1994i32,
            Topic::Unknown2025 => 2025i32,
            Topic::Unknown2324 => 2324i32,
            Topic::Unknown2329 => 2329i32,
            Topic::Unknown2412 => 2412i32,
            Topic::Unknown2465 => 2465i32,
            Topic::Unknown2519 => 2519i32,
            Topic::Unknown2771 => 2771i32,
            Topic::Unknown2777 => 2777i32,
            Topic::Unknown2783 => 2783i32,
            Topic::Unknown2787 => 2787i32,
            Topic::Unknown2781 => 2781i32,
            Topic::Unknown2757 => 2757i32,
            Topic::Unknown2840 => 2840i32,
            Topic::Unknown2872 => 2872i32,
            Topic::Unknown2951 => 2951i32,
            Topic::Unknown2977 => 2977i32,
            Topic::Unknown3097 => 3097i32,
            Topic::Unknown3137 => 3137i32,
            Topic::Unknown3260 => 3260i32,
            Topic::Unknown3314 => 3314i32,
            Topic::Unknown3338 => 3338i32,
            Topic::Unknown3339 => 3339i32,
            Topic::Unknown3348 => 3348i32,
            Topic::Unknown3349 => 3349i32,
            Topic::Unknown3455 => 3455i32,
            Topic::Unknown3468 => 3468i32,
            Topic::Unknown3479 => 3479i32,
            Topic::Unknown3491 => 3491i32,
            Topic::Unknown3530 => 3530i32,
            Topic::Unknown3643 => 3643i32,
            Topic::Unknown3651 => 3651i32,
            Topic::Unknown3751 => 3751i32,
            Topic::Other(c) => c,
        }
    }

    /// The topic of a code: the known topic with that code, else `Other`.
    pub open spec fn spec_from_code(c: i32) -> Topic {
        if c == 1 {
            Topic::Td1
        } else if c == 4 {
            Topic::Td4
        } else if c == 12 {
            Topic::Tr12
        } else if c == 845 {
            Topic::Td845
        } else if c == 847 {
            Topic::Td847
        } else if c == 922 {
            Topic::Tr922
        } else if c == 970 {
            Topic::Tr970
        } else if c == 1684 {
            Topic::Tr1684
        } else if c == 1724 {
            Topic::Tr1724
        } else if c == 1981 {
            Topic::Td1981
        } else if c == 2361 {
            Topic::Tr2361
        } else if c == 2939 {
            Topic::Tr2939
        } else if c == 2963 {
            Topic::Tr2963
        } else if c == 3424 {
            Topic::Tr3424
        } else if c == 1748 {
            Topic::Tr1748
        } else if c == 1749 {
            Topic::Tr1749
        } else if c == 2748 {
            Topic::Tr2748
        } else if c == 2751 {
            Topic::Td2751
        } else if c == 2753 {
            Topic::Tr2753
        } else if c == 2756 {
            Topic::Td2756
        } else if c == 0 {
            Topic::TdQuote
        } else if c == 10 {
            Topic::TdExtPrice
        } else if c == 14 {
            Topic::TrWatchlist
        } else if c == 1012 {
            Topic::TrLogin
        } else if c == 1013 {
            Topic::TrLoginInfo
        } else if c == 508 {
            Topic::TdLogin
        } else if c == 509 {
            Topic::TdLoginInfo
        } else if c == 2575 {
            Topic::TdLogout
        } else if c == 272 {
            Topic::TdAction
        } else if c == 1341 {
            Topic::TdStartWatch
        } else if c == 1110 {
            Topic::TrStopWatch
        } else if c == 1851 {
            Topic::TdMetaRequest
        } else if c == 1852 {
            Topic::TrMetaRequest
        } else if c == 406 {
            Topic::TdError
        } else if c == 99999 {
            Topic::TrForceError
        } else if c == 528 {
            Topic::TdMessage
        } else if c == 1230 {
            Topic::TdAlert
        } else if c == 1579 {
            Topic::TrPing
        } else if c == 1580 {
            Topic::TdPing
        } else if c == 482 {
            Topic::TdIosAccDetail
        } else if c == 495 {
            Topic::TdIosLogin
        } else if c == 984 {
            Topic::TdIosGeneral
        } else if c == 379 {
            Topic::TdControl
        } else if c == 840 {
            Topic::TdTopDown
        } else if c == 841 {
            Topic::TdTopUp
        } else if c == 842 {
            Topic::TdTopVal
        } else if c == 843 {
            Topic::TdTopVol
        } else if c == 2655 {
            Topic::TdTopupPoint
        } else if c == 2656 {
            Topic::TdTopdownPoint
        } else if c == 2743 {
            Topic::TrIosGetPortfolio
        } else if c == 2746 {
            Topic::TdIosPortfolio
        } else if c == 2936 {
            Topic::TdIosAlertMessage
        } else if c == 1736 {
            Topic::TdNewsLibrary
        } else if c == 1282 {
            Topic::TdExchangeTime
        } else if c == 1686 {
            Topic::TdIosOrders
        } else if c == -1 {
            Topic::UndefinedTopic
        } else if c == -2 {
            Topic::UserDefinedTopic
        } else if c == 2452 {
            Topic::TdPricestepsGeneral
        } else if c == 3088 {
            Topic::TrCmdExchList
        } else if c == 3089 {
            Topic::TdCmdExchList
        } else if c == 3636 {
            Topic::TrCaf
        } else if c == 3637 {
            Topic::TdCaf
        } else if c == 3050 {
            Topic::TdIosPortfolioGroup
        } else if c == 3095 {
            Topic::TdIosCashManagementTrust
        } else if c == 3465 {
            Topic::MExchanges
        } else if c == 351 {
            Topic::Unknown351
        } else if c == 484 {
            Topic::Unknown484
        } else if c == 614 {
            Topic::Unknown614
        } else if c == 1581 {
            Topic::Unknown1581
        } else if c == 1687 {
            Topic::Unknown1687
        } else if c == 1725 {
            Topic::Unknown1725Destination
        } else if c == 1868 {
            Topic::Unknown1868
        } else if c == 1994 {
            Topic::Unknown1994
        } else if c == 2025 {
            Topic::Unknown2025
        } else if c == 2324 {
            Topic::Unknown2324
        } else if c == 2329 {
            Topic::Unknown2329
        } else if c == 2412 {
            Topic::Unknown2412
        } else if c == 2465 {
            Topic::Unknown2465
        } else if c == 2519 {
            Topic::Unknown2519
        } else if c == 2771 {
            Topic::Unknown2771
        } else if c == 2777 {
            Topic::Unknown2777
        } else if c == 2783 {
            Topic::Unknown2783
        } else if c == 2787 {
            Topic::Unknown2787
        } else if c == 2781 {
            Topic::Unknown2781
        } else if c == 2757 {
            Topic::Unknown2757
        } else if c == 2840 {
            Topic::Unknown2840
        } else if c == 2872 {
            Topic::Unknown2872
        } else if c == 2951 {
            Topic::Unknown2951
        } else if c == 2977 {
            Topic::Unknown2977
        } else if c == 3097 {
            Topic::Unknown3097
        } else if c == 3137 {
            Topic::Unknown3137
        } else if c == 3260 {
            Topic::Unknown3260
        } else if c == 3314 {
            Topic::Unknown3314
        } else if c == 3338 {
            Topic::Unknown3338
        } else if c == 3339 {
            Topic::Unknown3339
        } else if c == 3348 {
            Topic::Unknown3348
        } else if c == 3349 {
            Topic::Unknown3349
        } else if c == 3455 {
            Topic::Unknown3455
        } else if c == 3468 {
            Topic::Unknown3468
        } else if c == 3479 {
            Topic::Unknown3479
        } else if c == 3491 {
            Topic::Unknown3491
        } else if c == 3530 {
            Topic::Unknown3530
        } else if c == 3643 {
            Topic::Unknown3643
        } else if c == 3651 {
            Topic::Unknown3651
        } else if c == 3751 {
            Topic::Unknown3751
        } else {
            Topic::Other(c)
        }
    }

    /// A topic is well formed when `Other` does not hold a known code.
    pub open spec fn wf(self) -> bool {
        Topic::spec_from_code(self.spec_code()) == self
    }

    /// The code of this topic.
    pub fn code(&self) -> (r: i32)
        ensures
            r == self.spec_code(),
    {
        match self {
            Topic::Td1 => 1,
            Topic::Td4 => 4,
            Topic::Tr12 => 12,
            Topic::Td845 => 845,
            Topic::Td847 => 847,
            Topic::Tr922 => 922,
            Topic::Tr970 => 970,
            Topic::Tr1684 => 1684,
            Topic::Tr1724 => 1724,
            Topic::Td1981 => 1981,
            Topic::Tr2361 => 2361,
            Topic::Tr2939 => 2939,
            Topic::Tr2963 => 2963,
            Topic::Tr3424 => 3424,
            Topic::Tr1748 => 1748,
            Topic::Tr1749 => 1749,
            Topic::Tr2748 => 2748,
            Topic::Td2751 => 2751,
            Topic::Tr2753 => 2753,
            Topic::Td2756 => 2756,
            Topic::TdQuote => 0,
            Topic::TdExtPrice => 10,
            Topic::TrWatchlist => 14,
            Topic::TrLogin => 1012,
            Topic::TrLoginInfo => 1013,
            Topic::TdLogin => 508,
            Topic::TdLoginInfo => 509,
            Topic::TdLogout => 2575,
            Topic::TdAction => 272,
            Topic::TdStartWatch => 1341,
            Topic::TrStopWatch => 1110,
            Topic::TdMetaRequest => 1851,
            Topic::TrMetaRequest => 1852,
            Topic::TdError => 406,
            Topic::TrForceError => 99999,
            Topic::TdMessage => 528,
            Topic::TdAlert => 1230,
            Topic::TrPing => 1579,
            Topic::TdPing => 1580,
            Topic::TdIosAccDetail => 482,
            Topic::TdIosLogin => 495,
            Topic::TdIosGeneral => 984,
            Topic::TdControl => 379,
            Topic::TdTopDown => 840,
            Topic::TdTopUp => 841,
            Topic::TdTopVal => 842,
            Topic::TdTopVol => 843,
            Topic::TdTopupPoint => 2655,
            Topic::TdTopdownPoint => 2656,
            Topic::TrIosGetPortfolio => 2743,
            Topic::TdIosPortfolio => 2746,
            Topic::TdIosAlertMessage => 2936,
            Topic::TdNewsLibrary => 1736,
            Topic::TdExchangeTime => 1282,
            Topic::TdIosOrders => 1686,
            Topic::UndefinedTopic => -1,
            Topic::UserDefinedTopic => -2,
            Topic::TdPricestepsGeneral => 2452,
            Topic::TrCmdExchList => 3088,
            Topic::TdCmdExchList => 3089,
            Topic::TrCaf => 3636,
            Topic::TdCaf => 3637,
            Topic::TdIosPortfolioGroup => 3050,
            Topic::TdIosCashManagementTrust => 3095,
            Topic::MExchanges => 3465,
            Topic::Unknown351 => 351,
            Topic::Unknown484 => 484,
            Topic::Unknown614 => 614,
            Topic::Unknown1581 => 1581,
            Topic::Unknown1687 => 1687,
            Topic::Unknown1725Destination => 1725,
            Topic::Unknown1868 => 1868,
            Topic::Unknown1994 => 1994,
            Topic::Unknown2025 => 2025,
            Topic::Unknown2324 => 2324,
            Topic::Unknown2329 => 2329,
            Topic::Unknown2412 => 2412,
            Topic::Unknown2465 => 2465,
            Topic::Unknown2519 => 2519,
            Topic::Unknown2771 => 2771,
            Topic::Unknown2777 => 2777,
            Topic::Unknown2783 => 2783,
            Topic::Unknown2787 => 2787,
            Topic::Unknown2781 => 2781,
            Topic::Unknown2757 => 2757,
            Topic::Unknown2840 => 2840,
            Topic::Unknown2872 => 2872,
            Topic::Unknown2951 => 2951,
            Topic::Unknown2977 => 2977,
            Topic::Unknown3097 => 3097,
            Topic::Unknown3137 => 3137,
            Topic::Unknown3260 => 3260,
            Topic::Unknown3314 => 3314,
            Topic::Unknown3338 => 3338,
            Topic::Unknown3339 => 3339,
            Topic::Unknown3348 => 3348,
            Topic::Unknown3349 => 3349,
            Topic::Unknown3455 => 3455,
            Topic::Unknown3468 => 3468,
            Topic::Unknown3479 => 3479,
            Topic::Unknown3491 => 3491,
            Topic::Unknown3530 => 3530,
            Topic::Unknown3643 => 3643,
            Topic::Unknown3651 => 3651,
            Topic::Unknown3751 => 3751,
            Topic::Other(c) => *c,
        }
    }

    /// The topic with code `c`.
    pub fn from_code(c: i32) -> (t: Topic)
        ensures
            t == Topic::spec_from_code(c),
            t.spec_code() == c,
            t.wf(),
    {
        match c {
            1 => Topic::Td1,
            4 => Topic::Td4,
            12 => Topic::Tr12,
            845 => Topic::Td845,
            847 => Topic::Td847,
            922 => Topic::Tr922,
            970 => Topic::Tr970,
            1684 => Topic::Tr1684,
            1724 => Topic::Tr1724,
            1981 => Topic::Td1981,
            2361 => Topic::Tr2361,
            2939 => Topic::Tr2939,
            2963 => Topic::Tr2963,
            3424 => Topic::Tr3424,
            1748 => Topic::Tr1748,
            1749 => Topic::Tr1749,
            2748 => Topic::Tr2748,
            2751 => Topic::Td2751,
            2753 => Topic::Tr2753,
            2756 => Topic::Td2756,
            0 => Topic::TdQuote,
            10 => Topic::TdExtPrice,
            14 => Topic::TrWatchlist,
            1012 => Topic::TrLogin,
            1013 => Topic::TrLoginInfo,
            508 => Topic::TdLogin,
            509 => Topic::TdLoginInfo,
            2575 => Topic::TdLogout,
            272 => Topic::TdAction,
            1341 => Topic::TdStartWatch,
            1110 => Topic::TrStopWatch,
            1851 => Topic::TdMetaRequest,
            1852 => Topic::TrMetaRequest,
            406 => Topic::TdError,
            99999 => Topic::TrForceError,
            528 => Topic::TdMessage,
            1230 => Topic::TdAlert,
            1579 => Topic::TrPing,
            1580 => Topic::TdPing,
            482 => Topic::TdIosAccDetail,
            495 => Topic::TdIosLogin,
            984 => Topic::TdIosGeneral,
            379 => Topic::TdControl,
            840 => Topic::TdTopDown,
            841 => Topic::TdTopUp,
            842 => Topic::TdTopVal,
            843 => Topic::TdTopVol,
            2655 => Topic::TdTopupPoint,
            2656 => Topic::TdTopdownPoint,
            2743 => Topic::TrIosGetPortfolio,
            2746 => Topic::TdIosPortfolio,
            2936 => Topic::TdIosAlertMessage,
            1736 => Topic::TdNewsLibrary,
            1282 => Topic::TdExchangeTime,
            1686 => Topic::TdIosOrders,
            -1 => Topic::UndefinedTopic,
            -2 => Topic::UserDefinedTopic,
            2452 => Topic::TdPricestepsGeneral,
            3088 => Topic::TrCmdExchList,
            3089 => Topic::TdCmdExchList,
            3636 => Topic::TrCaf,
            3637 => Topic::TdCaf,
            3050 => Topic::TdIosPortfolioGroup,
            3095 => Topic::TdIosCashManagementTrust,
            3465 => Topic::MExchanges,
            351 => Topic::Unknown351,
            484 => Topic::Unknown484,
            614 => Topic::Unknown614,
            1581 => Topic::Unknown1581,
            1687 => Topic::Unknown1687,
            1725 => Topic::Unknown1725Destination,
            1868 => Topic::Unknown1868,
            1994 => Topic::Unknown1994,
            2025 => Topic::Unknown2025,
            2324 => Topic::Unknown2324,
            2329 => Topic::Unknown2329,
            2412 => Topic::Unknown2412,
            2465 => Topic::Unknown2465,
            2519 => Topic::Unknown2519,
            2771 => Topic::Unknown2771,
            2777 => Topic::Unknown2777,
            2783 => Topic::Unknown2783,
            2787 => Topic::Unknown2787,
            2781 => Topic::Unknown2781,
            2757 => Topic::Unknown2757,
            2840 => Topic::Unknown2840,
            2872 => Topic::Unknown2872,
            2951 => Topic::Unknown2951,
            2977 => Topic::Unknown2977,
            3097 => Topic::Unknown3097,
            3137 => Topic::Unknown3137,
            3260 => Topic::Unknown3260,
            3314 => Topic::Unknown3314,
            3338 => Topic::Unknown3338,
            3339 => Topic::Unknown3339,
            3348 => Topic::Unknown3348,
            3349 => Topic::Unknown3349,
            3455 => Topic::Unknown3455,
            3468 => Topic::Unknown3468,
            3479 => Topic::Unknown3479,
            3491 => Topic::Unknown3491,
            3530 => Topic::Unknown3530,
            3643 => Topic::Unknown3643,
            3651 => Topic::Unknown3651,
            3751 => Topic::Unknown3751,
            _ => Topic::Other(c),
        }
    }
}

} // verus!
